//! The table of customer accounts.

use vstd::prelude::*;
use vstd::string::StringExecFns;

use crate::base::domain_error::{DomainError, DomainErrorView};
use crate::entities::cliente::{Cliente, ClienteView};
use crate::entities::cpf::{is_canonical, Cpf};
use crate::external::postgres::table::{
    failure_to_error, failure_view, read_row_id, row_id, SqlFailure,
};

verus! {

/// Reason carried by the error for a row that is no customer account.
pub const MALFORMED_ROW: &'static str = "Cliente";

/// The columns of the table, in their order.
pub open spec fn cliente_columns() -> Seq<Seq<char>> {
    seq![
        "id"@,
        "nome"@,
        "email"@,
        "cpf"@,
        "data_criacao"@,
        "data_atualizacao"@,
    ]
}

/// Lists the columns of the table.
pub fn get_cliente_table_columns() -> (columns: Vec<String>)
    ensures
        columns.deep_view() == cliente_columns(),
{
    let columns: Vec<String> = vec![
        String::from_str("id"),
        String::from_str("nome"),
        String::from_str("email"),
        String::from_str("cpf"),
        String::from_str("data_criacao"),
        String::from_str("data_atualizacao"),
    ];
    assert(columns.deep_view() =~= cliente_columns());
    columns
}

/// A row of the table, as the driver hands it over.
#[derive(Debug)]
pub struct ClienteRow {
    pub id: i64,
    pub nome: String,
    pub email: String,
    pub cpf: String,
    pub data_criacao: String,
    pub data_atualizacao: String,
}

/// The account that a row stands for, where it stands for one.
pub open spec fn cliente_of_row(row: ClienteRow) -> Option<ClienteView> {
    let id = row_id(row.id);
    if id is Some && is_canonical(row.cpf@) {
        Some(
            ClienteView {
                id: id.unwrap(),
                nome: row.nome@,
                email: row.email@,
                cpf: row.cpf@,
                data_criacao: row.data_criacao@,
                data_atualizacao: row.data_atualizacao@,
            },
        )
    } else {
        None
    }
}

/// Reads a row. A row that stands for no account is an error: the table has
/// a schema, and a row that breaks it is not passed over.
pub fn read_row(row: &ClienteRow) -> (r: Result<Cliente, DomainError>)
    ensures
        match cliente_of_row(*row) {
            Some(cliente) => r matches Ok(read) && read@ == cliente,
            None => r matches Err(e) && e@ == DomainErrorView::Invalid(MALFORMED_ROW@),
        },
{
    let id = match read_row_id(row.id) {
        Some(id) => id,
        None => {
            return Err(DomainError::Invalid(String::from_str(MALFORMED_ROW)));
        },
    };
    let cpf = match Cpf::new(row.cpf.clone()) {
        Ok(cpf) => cpf,
        Err(_) => {
            return Err(DomainError::Invalid(String::from_str(MALFORMED_ROW)));
        },
    };
    Ok(
        Cliente::new(
            id,
            row.nome.clone(),
            row.email.clone(),
            cpf,
            row.data_criacao.clone(),
            row.data_atualizacao.clone(),
        ),
    )
}

/// What a query for one account came to: the account of the first row,
/// `NotFound` where no row came.
pub fn selected_one(outcome: Result<Vec<ClienteRow>, SqlFailure>) -> (r: Result<
    Cliente,
    DomainError,
>)
    ensures
        match outcome {
            Ok(rows) => if rows.len() == 0 {
                r matches Err(e) && e@ == DomainErrorView::NotFound
            } else {
                match cliente_of_row(rows[0]) {
                    Some(cliente) => r matches Ok(read) && read@ == cliente,
                    None => r matches Err(e) && e@ == DomainErrorView::Invalid(MALFORMED_ROW@),
                }
            },
            Err(failure) => r matches Err(e) && e@ == failure_view(failure),
        },
{
    match outcome {
        Ok(rows) => {
            if rows.len() == 0 {
                Err(DomainError::NotFound)
            } else {
                read_row(&rows[0])
            }
        },
        Err(failure) => Err(failure_to_error(failure)),
    }
}

/// Whether every row of a listing stands for an account.
pub open spec fn all_rows_read(rows: Seq<ClienteRow>) -> bool {
    forall|i: int| 0 <= i < rows.len() ==> cliente_of_row(#[trigger] rows[i]) is Some
}

/// What a query for every account came to: the accounts of the rows, in
/// their order.
pub fn selected_all(outcome: Result<Vec<ClienteRow>, SqlFailure>) -> (r: Result<
    Vec<Cliente>,
    DomainError,
>)
    ensures
        match outcome {
            Ok(rows) => if all_rows_read(rows@) {
                r matches Ok(clientes) && clientes.len() == rows.len() && forall|i: int|
                    0 <= i < rows.len() ==> Some((#[trigger] clientes[i])@) == cliente_of_row(
                        rows[i],
                    )
            } else {
                r matches Err(e) && e@ == DomainErrorView::Invalid(MALFORMED_ROW@)
            },
            Err(failure) => r matches Err(e) && e@ == failure_view(failure),
        },
{
    match outcome {
        Ok(rows) => {
            let mut clientes: Vec<Cliente> = Vec::new();
            let mut i: usize = 0;
            while i < rows.len()
                invariant
                    i <= rows.len(),
                    clientes.len() == i,
                    outcome == Ok::<Vec<ClienteRow>, SqlFailure>(rows),
                    forall|j: int| 0 <= j < i ==> cliente_of_row(#[trigger] rows@[j]) is Some,
                    forall|j: int|
                        0 <= j < i ==> Some((#[trigger] clientes[j])@) == cliente_of_row(rows[j]),
                decreases rows.len() - i,
            {
                match read_row(&rows[i]) {
                    Ok(cliente) => {
                        clientes.push(cliente);
                    },
                    Err(error) => {
                        assert(cliente_of_row(rows@[i as int]) is None);
                        return Err(error);
                    },
                }
                i += 1;
            }
            Ok(clientes)
        },
        Err(failure) => Err(failure_to_error(failure)),
    }
}

/// The values of the columns after the first, as a statement writes them for
/// an account.
pub open spec fn values_of_cliente(cliente: ClienteView) -> Seq<Seq<char>> {
    seq![
        cliente.nome,
        cliente.email,
        cliente.cpf,
        cliente.data_criacao,
        cliente.data_atualizacao,
    ]
}

/// Lists the values that a statement writes for an account, one for each
/// column after the first, in the order of the columns.
pub fn written_values(cliente: &Cliente) -> (values: Vec<String>)
    ensures
        values.deep_view() == values_of_cliente(cliente@),
        values.len() + 1 == cliente_columns().len(),
{
    let values: Vec<String> = vec![
        cliente.nome().clone(),
        cliente.email().clone(),
        cliente.cpf().value().clone(),
        cliente.data_criacao().clone(),
        cliente.data_atualizacao().clone(),
    ];
    assert(values.deep_view() =~= values_of_cliente(cliente@));
    values
}

/// A row that holds the values written for an account stands for that
/// account, under the identifier of the row.
pub proof fn lemma_row_round_trip(cliente: ClienteView, row: ClienteRow)
    requires
        is_canonical(cliente.cpf),
        row_id(row.id) is Some,
        seq![row.nome@, row.email@, row.cpf@, row.data_criacao@, row.data_atualizacao@]
            == values_of_cliente(cliente),
    ensures
        cliente_of_row(row) == Some(ClienteView { id: row_id(row.id).unwrap(), ..cliente }),
{
    let written = values_of_cliente(cliente);
    assert(row.nome@ == written[0] && row.email@ == written[1] && row.cpf@ == written[2]);
    assert(row.data_criacao@ == written[3] && row.data_atualizacao@ == written[4]);
}

} // verus!
