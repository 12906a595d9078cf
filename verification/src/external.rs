//! What the service needs to know of the stores outside it.

pub mod postgres;
