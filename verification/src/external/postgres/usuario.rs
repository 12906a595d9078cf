//! The table of staff accounts.

use vstd::prelude::*;
use vstd::string::StringExecFns;

use crate::base::domain_error::{DomainError, DomainErrorView};
use crate::entities::cpf::{is_canonical, Cpf};
use crate::entities::usuario::{lemma_names_round_trip, Status, Tipo, Usuario, UsuarioView};
use crate::external::postgres::table::{
    failure_to_error, failure_view, read_row_id, row_id, SqlFailure,
};

verus! {

/// Reason carried by the error for a row that is no staff account.
pub const MALFORMED_ROW: &'static str = "Usuario";

/// The columns of the table, in their order.
pub open spec fn usuario_columns() -> Seq<Seq<char>> {
    seq![
        "id"@,
        "nome"@,
        "email"@,
        "cpf"@,
        "senha"@,
        "tipo"@,
        "status"@,
        "data_criacao"@,
        "data_atualizacao"@,
    ]
}

/// Lists the columns of the table.
pub fn get_usuario_table_columns() -> (columns: Vec<String>)
    ensures
        columns.deep_view() == usuario_columns(),
{
    let columns: Vec<String> = vec![
        String::from_str("id"),
        String::from_str("nome"),
        String::from_str("email"),
        String::from_str("cpf"),
        String::from_str("senha"),
        String::from_str("tipo"),
        String::from_str("status"),
        String::from_str("data_criacao"),
        String::from_str("data_atualizacao"),
    ];
    assert(columns.deep_view() =~= usuario_columns());
    columns
}

/// A row of the table, as the driver hands it over.
#[derive(Debug)]
pub struct UsuarioRow {
    pub id: i64,
    pub nome: String,
    pub email: String,
    pub cpf: String,
    pub senha: String,
    pub tipo: String,
    pub status: String,
    pub data_criacao: String,
    pub data_atualizacao: String,
}

/// The account that a row stands for, where it stands for one.
pub open spec fn usuario_of_row(row: UsuarioRow) -> Option<UsuarioView> {
    let id = row_id(row.id);
    let tipo = Tipo::named(row.tipo@);
    let status = Status::named(row.status@);
    if id is Some && is_canonical(row.cpf@) && tipo is Some && status is Some {
        Some(
            UsuarioView {
                id: id.unwrap(),
                nome: row.nome@,
                email: row.email@,
                cpf: row.cpf@,
                senha: row.senha@,
                tipo: tipo.unwrap(),
                status: status.unwrap(),
                data_criacao: row.data_criacao@,
                data_atualizacao: row.data_atualizacao@,
            },
        )
    } else {
        None
    }
}

/// Reads a row. A row that stands for no account is an error: the table has
/// a schema, and a row that breaks it is not passed over.
pub fn read_row(row: &UsuarioRow) -> (r: Result<Usuario, DomainError>)
    ensures
        match usuario_of_row(*row) {
            Some(usuario) => r matches Ok(read) && read@ == usuario,
            None => r matches Err(e) && e@ == DomainErrorView::Invalid(MALFORMED_ROW@),
        },
{
    let id = match read_row_id(row.id) {
        Some(id) => id,
        None => {
            return Err(DomainError::Invalid(String::from_str(MALFORMED_ROW)));
        },
    };
    let tipo = match Tipo::from_str(row.tipo.as_str()) {
        Ok(tipo) => tipo,
        Err(_) => {
            return Err(DomainError::Invalid(String::from_str(MALFORMED_ROW)));
        },
    };
    let status = match Status::from_str(row.status.as_str()) {
        Ok(status) => status,
        Err(_) => {
            return Err(DomainError::Invalid(String::from_str(MALFORMED_ROW)));
        },
    };
    let cpf = match Cpf::new(row.cpf.clone()) {
        Ok(cpf) => cpf,
        Err(_) => {
            return Err(DomainError::Invalid(String::from_str(MALFORMED_ROW)));
        },
    };
    Ok(
        Usuario::new(
            id,
            row.nome.clone(),
            row.email.clone(),
            cpf,
            row.senha.clone(),
            tipo,
            status,
            row.data_criacao.clone(),
            row.data_atualizacao.clone(),
        ),
    )
}

/// What a query for one account came to: the account of the first row,
/// `NotFound` where no row came.
pub fn selected_one(outcome: Result<Vec<UsuarioRow>, SqlFailure>) -> (r: Result<
    Usuario,
    DomainError,
>)
    ensures
        match outcome {
            Ok(rows) => if rows.len() == 0 {
                r matches Err(e) && e@ == DomainErrorView::NotFound
            } else {
                match usuario_of_row(rows[0]) {
                    Some(usuario) => r matches Ok(read) && read@ == usuario,
                    None => r matches Err(e) && e@ == DomainErrorView::Invalid(MALFORMED_ROW@),
                }
            },
            Err(failure) => r matches Err(e) && e@ == failure_view(failure),
        },
{
    match outcome {
        Ok(rows) => {
            if rows.len() == 0 {
                Err(DomainError::NotFound)
            } else {
                read_row(&rows[0])
            }
        },
        Err(failure) => Err(failure_to_error(failure)),
    }
}

/// Whether every row of a listing stands for an account.
pub open spec fn all_rows_read(rows: Seq<UsuarioRow>) -> bool {
    forall|i: int| 0 <= i < rows.len() ==> usuario_of_row(#[trigger] rows[i]) is Some
}

/// What a query for every account came to: the accounts of the rows, in
/// their order.
pub fn selected_all(outcome: Result<Vec<UsuarioRow>, SqlFailure>) -> (r: Result<
    Vec<Usuario>,
    DomainError,
>)
    ensures
        match outcome {
            Ok(rows) => if all_rows_read(rows@) {
                r matches Ok(usuarios) && usuarios.len() == rows.len() && forall|i: int|
                    0 <= i < rows.len() ==> Some((#[trigger] usuarios[i])@) == usuario_of_row(
                        rows[i],
                    )
            } else {
                r matches Err(e) && e@ == DomainErrorView::Invalid(MALFORMED_ROW@)
            },
            Err(failure) => r matches Err(e) && e@ == failure_view(failure),
        },
{
    match outcome {
        Ok(rows) => {
            let mut usuarios: Vec<Usuario> = Vec::new();
            let mut i: usize = 0;
            while i < rows.len()
                invariant
                    i <= rows.len(),
                    usuarios.len() == i,
                    outcome == Ok::<Vec<UsuarioRow>, SqlFailure>(rows),
                    forall|j: int| 0 <= j < i ==> usuario_of_row(#[trigger] rows@[j]) is Some,
                    forall|j: int|
                        0 <= j < i ==> Some((#[trigger] usuarios[j])@) == usuario_of_row(rows[j]),
                decreases rows.len() - i,
            {
                match read_row(&rows[i]) {
                    Ok(usuario) => {
                        usuarios.push(usuario);
                    },
                    Err(error) => {
                        assert(usuario_of_row(rows@[i as int]) is None);
                        return Err(error);
                    },
                }
                i += 1;
            }
            Ok(usuarios)
        },
        Err(failure) => Err(failure_to_error(failure)),
    }
}

/// The values of the columns after the first, as a statement writes them for
/// an account.
pub open spec fn values_of_usuario(usuario: UsuarioView) -> Seq<Seq<char>> {
    seq![
        usuario.nome,
        usuario.email,
        usuario.cpf,
        usuario.senha,
        usuario.tipo.text(),
        usuario.status.text(),
        usuario.data_criacao,
        usuario.data_atualizacao,
    ]
}

/// Lists the values that a statement writes for an account, one for each
/// column after the first, in the order of the columns.
pub fn written_values(usuario: &Usuario) -> (values: Vec<String>)
    ensures
        values.deep_view() == values_of_usuario(usuario@),
        values.len() + 1 == usuario_columns().len(),
{
    let values: Vec<String> = vec![
        usuario.nome().clone(),
        usuario.email().clone(),
        usuario.cpf().value().clone(),
        usuario.senha().clone(),
        usuario.tipo().to_string(),
        usuario.status().to_string(),
        usuario.data_criacao().clone(),
        usuario.data_atualizacao().clone(),
    ];
    assert(values.deep_view() =~= values_of_usuario(usuario@));
    values
}

/// A row that holds the values written for an account stands for that
/// account, under the identifier of the row.
pub proof fn lemma_row_round_trip(usuario: UsuarioView, row: UsuarioRow)
    requires
        is_canonical(usuario.cpf),
        row_id(row.id) is Some,
        seq![
            row.nome@,
            row.email@,
            row.cpf@,
            row.senha@,
            row.tipo@,
            row.status@,
            row.data_criacao@,
            row.data_atualizacao@,
        ] == values_of_usuario(usuario),
    ensures
        usuario_of_row(row) == Some(UsuarioView { id: row_id(row.id).unwrap(), ..usuario }),
{
    let written = values_of_usuario(usuario);
    lemma_names_round_trip(usuario.tipo, usuario.status);
    assert(row.nome@ == written[0] && row.email@ == written[1] && row.cpf@ == written[2]);
    assert(row.senha@ == written[3] && row.tipo@ == written[4] && row.status@ == written[5]);
    assert(row.data_criacao@ == written[6] && row.data_atualizacao@ == written[7]);
}

} // verus!
