//! The stores that keep accounts, and the rules by which accounts are written
//! to and read from a directory of users.

pub mod aws_cognito_cliente_gateway;
pub mod aws_cognito_usuario_gateway;
pub mod directory;
pub mod in_memory_cliente_gateway;
pub mod in_memory_usuario_gateway;
