//! Vocabulary shared by every other module.

pub mod assertion_concern;
pub mod domain_error;
pub mod sequence;
pub mod text;
