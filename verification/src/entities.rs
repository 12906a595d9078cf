//! The accounts and the values they are made of.

pub mod cliente;
pub mod cpf;
pub mod usuario;
