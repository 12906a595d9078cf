//! Accounts of a fast-food service: staff users and customers, the rules their
//! records obey, and the stores that keep them.

pub mod api;
pub mod base;
pub mod entities;
pub mod external;
pub mod gateways;
