//! Accounts kept in a relational database: the tables, and what the answers
//! of the database mean.

pub mod cliente;
pub mod table;
pub mod usuario;

use vstd::prelude::*;

use self::cliente::{cliente_columns, get_cliente_table_columns};
use self::table::{Table, TablesNames};
use self::usuario::{get_usuario_table_columns, usuario_columns};

verus! {

/// The tables of the database: staff first, customers second.
pub fn get_tables() -> (tables: Vec<Table>)
    ensures
        tables.len() == 2,
        tables[0].name == TablesNames::Usuario,
        tables[0].columns.deep_view() == usuario_columns(),
        tables[1].name == TablesNames::Cliente,
        tables[1].columns.deep_view() == cliente_columns(),
{
    vec![
        Table { name: TablesNames::Usuario, columns: get_usuario_table_columns() },
        Table { name: TablesNames::Cliente, columns: get_cliente_table_columns() },
    ]
}

} // verus!
