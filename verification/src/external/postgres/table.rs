//! Tables, and the outcome of a statement.

use vstd::prelude::*;
use vstd::string::StringExecFns;

use crate::base::domain_error::{DomainError, DomainErrorView};
use crate::base::text::{decimal_text, join, joined, to_decimal};

verus! {

/// The tables that the service keeps.
#[derive(Clone, Copy, Debug, PartialEq, Eq, Structural)]
pub enum TablesNames {
    Usuario,
    Cliente,
}

impl TablesNames {
    /// The name of the table in the database.
    pub open spec fn text(self) -> Seq<char> {
        match self {
            TablesNames::Usuario => "usuario"@,
            TablesNames::Cliente => "cliente"@,
        }
    }

    /// Writes the name of the table as the database knows it.
    pub fn to_string(&self) -> (s: String)
        ensures
            s@ == self.text(),
    {
        match self {
            TablesNames::Usuario => String::from_str("usuario"),
            TablesNames::Cliente => String::from_str("cliente"),
        }
    }
}

/// A table: its name and its columns, in their order.
#[derive(Debug)]
pub struct Table {
    pub name: TablesNames,
    pub columns: Vec<String>,
}

/// The columns that a statement writes: all but the first, which holds the
/// identifier that the database assigns.
pub open spec fn written_columns(columns: Seq<Seq<char>>) -> Seq<Seq<char>> {
    if columns.len() == 0 {
        columns
    } else {
        columns.drop_first()
    }
}

/// The column that holds the identifier: the first, where there is one.
pub open spec fn key_column(columns: Seq<Seq<char>>) -> Seq<char> {
    if columns.len() == 0 {
        Seq::empty()
    } else {
        columns[0]
    }
}

/// The place of the parameter with the given number in a statement.
pub open spec fn placeholder(number: nat) -> Seq<char> {
    "$"@ + decimal_text(number)
}

/// The places of the parameters from `first` on, `count` of them.
pub open spec fn placeholders(first: nat, count: nat) -> Seq<Seq<char>> {
    Seq::new(count, |i: int| placeholder((first + i) as nat))
}

/// Each written column set to a parameter of its own, the first of them to
/// the second parameter.
pub open spec fn assignments(columns: Seq<Seq<char>>) -> Seq<Seq<char>> {
    Seq::new(
        written_columns(columns).len(),
        |i: int| written_columns(columns)[i] + " = "@ + placeholder((i + 2) as nat),
    )
}

/// The condition that holds a column to the first parameter.
pub open spec fn condition(column: Seq<char>) -> Seq<char> {
    " WHERE "@ + column + " = $1"@
}

/// The statement that reads every row.
pub open spec fn select_all_text(name: Seq<char>, columns: Seq<Seq<char>>) -> Seq<char> {
    "SELECT "@ + joined(columns, ", "@) + " FROM "@ + name
}

/// The statement that reads the rows with a given value in `column`.
pub open spec fn select_by_text(name: Seq<char>, columns: Seq<Seq<char>>, column: Seq<char>) -> Seq<
    char,
> {
    select_all_text(name, columns) + condition(column)
}

/// The statement that adds a row and hands it back as it was stored.
pub open spec fn insert_text(name: Seq<char>, columns: Seq<Seq<char>>) -> Seq<char> {
    "INSERT INTO "@ + name + " ("@ + joined(written_columns(columns), ", "@) + ") VALUES ("@
        + joined(placeholders(1, written_columns(columns).len()), ", "@) + ") RETURNING "@
        + joined(columns, ", "@)
}

/// The statement that rewrites the row with a given identifier.
pub open spec fn update_text(name: Seq<char>, columns: Seq<Seq<char>>) -> Seq<char> {
    "UPDATE "@ + name + " SET "@ + joined(assignments(columns), ", "@) + condition(
        key_column(columns),
    )
}

/// The statement that removes the rows with a given value in `column`.
pub open spec fn delete_by_text(name: Seq<char>, column: Seq<char>) -> Seq<char> {
    "DELETE FROM "@ + name + condition(column)
}

/// Writes the place of a parameter.
fn write_placeholder(number: usize) -> (text: String)
    ensures
        text@ == placeholder(number as nat),
{
    let mut text = String::from_str("$");
    text.append(to_decimal(number).as_str());
    text
}

impl Table {
    /// Writes the statement that reads every row.
    pub fn select_all(&self) -> (statement: String)
        ensures
            statement@ == select_all_text(self.name.text(), self.columns.deep_view()),
    {
        let mut statement = String::from_str("SELECT ");
        statement.append(join(&self.columns, ", ").as_str());
        statement.append(" FROM ");
        statement.append(self.name.to_string().as_str());
        statement
    }

    /// Writes the statement that reads the rows with the value of the first
    /// parameter in `column`.
    pub fn select_by(&self, column: &str) -> (statement: String)
        ensures
            statement@ == select_by_text(self.name.text(), self.columns.deep_view(), column@),
    {
        let mut statement = self.select_all();
        let mut filter = String::from_str(" WHERE ");
        filter.append(column);
        filter.append(" = $1");
        statement.append(filter.as_str());
        statement
    }

    /// Writes the statement that adds a row. Its parameters are the values of
    /// the columns after the first, in their order; the database assigns the
    /// identifier and hands the whole row back.
    pub fn insert(&self) -> (statement: String)
        ensures
            statement@ == insert_text(self.name.text(), self.columns.deep_view()),
    {
        let ghost columns = self.columns.deep_view();
        let mut written: Vec<String> = Vec::new();
        let mut places: Vec<String> = Vec::new();
        let mut i: usize = 1;
        while i < self.columns.len()
            invariant
                1 <= i,
                i <= self.columns.len() || i == 1,
                columns == self.columns.deep_view(),
                written.len() == places.len(),
                written.len() == i - 1,
                forall|j: int| 0 <= j < i - 1 ==> (#[trigger] written[j])@ == columns[j + 1],
                forall|j: int|
                    0 <= j < i - 1 ==> (#[trigger] places[j])@ == placeholder((1 + j) as nat),
            decreases self.columns.len() - i,
        {
            written.push(self.columns[i].clone());
            places.push(write_placeholder(i));
            i += 1;
        }
        proof {
            let kept = written_columns(columns);
            assert forall|j: int| 0 <= j < kept.len() implies written.deep_view()[j]
                == kept[j] by {
                assert(written.deep_view()[j] == written[j]@);
            }
            assert(written.deep_view() =~= kept);
        }
        assert(places.deep_view() =~= placeholders(1, written_columns(columns).len()));
        let mut statement = String::from_str("INSERT INTO ");
        statement.append(self.name.to_string().as_str());
        statement.append(" (");
        statement.append(join(&written, ", ").as_str());
        statement.append(") VALUES (");
        statement.append(join(&places, ", ").as_str());
        statement.append(") RETURNING ");
        statement.append(join(&self.columns, ", ").as_str());
        statement
    }

    /// Writes the statement that rewrites a row. Its first parameter is the
    /// identifier of the row, the others are the values of the columns after
    /// the first, in their order.
    pub fn update(&self) -> (statement: String)
        ensures
            statement@ == update_text(self.name.text(), self.columns.deep_view()),
    {
        let ghost columns = self.columns.deep_view();
        let mut sets: Vec<String> = Vec::new();
        let mut i: usize = 1;
        while i < self.columns.len()
            invariant
                1 <= i,
                i <= self.columns.len() || i == 1,
                columns == self.columns.deep_view(),
                sets.len() == i - 1,
                forall|j: int|
                    0 <= j < i - 1 ==> (#[trigger] sets[j])@ == columns[j + 1] + " = "@
                        + placeholder((j + 2) as nat),
            decreases self.columns.len() - i,
        {
            let mut set = self.columns[i].clone();
            set.append(" = ");
            set.append(write_placeholder(i + 1).as_str());
            sets.push(set);
            i += 1;
        }
        proof {
            let kept = assignments(columns);
            assert forall|j: int| 0 <= j < kept.len() implies sets.deep_view()[j] == kept[j] by {
                assert(sets.deep_view()[j] == sets[j]@);
            }
            assert(sets.deep_view() =~= kept);
        }
        let mut filter = String::from_str(" WHERE ");
        if self.columns.len() > 0 {
            filter.append(self.columns[0].as_str());
        }
        filter.append(" = $1");
        assert(filter@ =~= condition(key_column(columns)));
        let mut statement = String::from_str("UPDATE ");
        statement.append(self.name.to_string().as_str());
        statement.append(" SET ");
        statement.append(join(&sets, ", ").as_str());
        statement.append(filter.as_str());
        statement
    }

    /// Writes the statement that removes the rows with the value of the first
    /// parameter in `column`.
    pub fn delete_by(&self, column: &str) -> (statement: String)
        ensures
            statement@ == delete_by_text(self.name.text(), column@),
    {
        let mut filter = String::from_str(" WHERE ");
        filter.append(column);
        filter.append(" = $1");
        let mut statement = String::from_str("DELETE FROM ");
        statement.append(self.name.to_string().as_str());
        statement.append(filter.as_str());
        statement
    }
}

/// Why the database did not carry a statement out.
#[derive(Debug)]
pub enum SqlFailure {
    /// A row with the same key is there already.
    UniqueViolation,
    /// Anything else, in the words of the driver.
    Other(String),
}

/// The error that a caller sees for a statement that failed: `AlreadyExists`
/// for a key that is taken, `Invalid` with the driver's words for the rest.
pub open spec fn failure_view(failure: SqlFailure) -> DomainErrorView {
    match failure {
        SqlFailure::UniqueViolation => DomainErrorView::AlreadyExists,
        SqlFailure::Other(reason) => DomainErrorView::Invalid(reason@),
    }
}

/// Says what the failure of a statement is to the caller.
pub fn failure_to_error(failure: SqlFailure) -> (error: DomainError)
    ensures
        error@ == failure_view(failure),
{
    match failure {
        SqlFailure::UniqueViolation => DomainError::AlreadyExists,
        SqlFailure::Other(reason) => DomainError::Invalid(reason),
    }
}

/// What an update or a deletion came to, given how many rows the database
/// reports as changed: where it changed none, the row was not there.
pub fn changed(outcome: Result<u64, SqlFailure>) -> (r: Result<(), DomainError>)
    ensures
        match outcome {
            Ok(rows) => if rows == 0 {
                r matches Err(e) && e@ == DomainErrorView::NotFound
            } else {
                r is Ok
            },
            Err(failure) => r matches Err(e) && e@ == failure_view(failure),
        },
{
    match outcome {
        Ok(rows) => if rows == 0 {
            Err(DomainError::NotFound)
        } else {
            Ok(())
        },
        Err(failure) => Err(failure_to_error(failure)),
    }
}

/// The identifier that a row holds, where it is one that an account can have.
pub open spec fn row_id(id: i64) -> Option<usize> {
    if 0 <= id <= usize::MAX {
        Some(id as usize)
    } else {
        None
    }
}

/// Reads the identifier of a row.
pub fn read_row_id(id: i64) -> (r: Option<usize>)
    ensures
        r == row_id(id),
{
    if id < 0 {
        None
    } else if id as u64 > usize::MAX as u64 {
        None
    } else {
        Some(id as usize)
    }
}

/// The identifier as a row holds it, where a row can hold it.
pub open spec fn id_in_row(id: usize) -> Option<i64> {
    if id <= i64::MAX {
        Some(id as i64)
    } else {
        None
    }
}

/// Writes an identifier as the parameter of a statement. No row holds an
/// identifier that the column cannot hold, so a lookup or an update by one is
/// `NotFound` before any statement is sent.
pub fn id_parameter(id: usize) -> (r: Result<i64, DomainError>)
    ensures
        match id_in_row(id) {
            Some(written) => r == Ok::<i64, DomainError>(written),
            None => r matches Err(e) && e@ == DomainErrorView::NotFound,
        },
{
    if id as u64 > i64::MAX as u64 {
        Err(DomainError::NotFound)
    } else {
        Ok(id as i64)
    }
}

/// An identifier that was written for a row is read back from it.
pub proof fn lemma_row_id_round_trip(id: usize)
    ensures
        id_in_row(id) matches Some(written) ==> row_id(written) == Some(id),
{
}

} // verus!
