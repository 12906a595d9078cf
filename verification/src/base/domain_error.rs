//! The errors that cross the boundary of a store.

use vstd::prelude::*;

verus! {

/// Why an operation on an account was refused.
#[derive(Debug)]
pub enum DomainError {
    AlreadyExists,
    Empty,
    Unauthorized,
    NotFound,
    Invalid(String),
    NonPositive,
}

/// A [`DomainError`] as contracts see it: the reason of `Invalid` is its text.
pub enum DomainErrorView {
    AlreadyExists,
    Empty,
    Unauthorized,
    NotFound,
    Invalid(Seq<char>),
    NonPositive,
}

impl View for DomainError {
    type V = DomainErrorView;

    open spec fn view(&self) -> DomainErrorView {
        match self {
            DomainError::AlreadyExists => DomainErrorView::AlreadyExists,
            DomainError::Empty => DomainErrorView::Empty,
            DomainError::Unauthorized => DomainErrorView::Unauthorized,
            DomainError::NotFound => DomainErrorView::NotFound,
            DomainError::Invalid(reason) => DomainErrorView::Invalid(reason@),
            DomainError::NonPositive => DomainErrorView::NonPositive,
        }
    }
}

impl PartialEq for DomainError {
    /// Two errors are equal when they are of one kind and, for `Invalid`, give
    /// the same reason.
    fn eq(&self, other: &Self) -> (r: bool) {
        match (self, other) {
            (DomainError::AlreadyExists, DomainError::AlreadyExists) => true,
            (DomainError::Empty, DomainError::Empty) => true,
            (DomainError::Unauthorized, DomainError::Unauthorized) => true,
            (DomainError::NotFound, DomainError::NotFound) => true,
            (DomainError::NonPositive, DomainError::NonPositive) => true,
            (DomainError::Invalid(a), DomainError::Invalid(b)) => *a == *b,
            _ => false,
        }
    }
}

impl vstd::std_specs::cmp::PartialEqSpecImpl for DomainError {
    open spec fn obeys_eq_spec() -> bool {
        true
    }

    open spec fn eq_spec(&self, other: &Self) -> bool {
        self@ == other@
    }
}

} // verus!
