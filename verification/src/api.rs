//! What the service is told when it starts.

pub mod config;
