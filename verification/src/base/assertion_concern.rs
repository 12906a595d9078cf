//! Checks on single arguments that the entities share.

use vstd::prelude::*;
use vstd::string::StringExecFns;

use crate::base::domain_error::{DomainError, DomainErrorView};

verus! {

/// The one textual form that timestamps of accounts take, in the notation of
/// `chrono::format::strftime`: date, time with milliseconds, numeric offset.
pub const TIMESTAMP_FORMAT: &'static str = "%Y-%m-%d %H:%M:%S%.3f%z";

/// Reason carried by the error for a timestamp that is not in [`TIMESTAMP_FORMAT`].
pub const INVALID_TIMESTAMP: &'static str = "Timestamp";

/// Whether `chrono` reads `text` as a date and time with an offset under `format`.
pub uninterp spec fn chrono_parses(text: Seq<char>, format: Seq<char>) -> bool;

/// Calls `chrono::DateTime::parse_from_str` and reports whether it succeeded.
/// The parser reads nothing but its two arguments, so the answer is named by
/// [`chrono_parses`]; it returns an error on every mismatch and never panics.
#[verifier::external_body]
fn parses_with_format(text: &str, format: &str) -> (ok: bool)
    ensures
        ok == chrono_parses(text@, format@),
{
    chrono::DateTime::parse_from_str(text, format).is_ok()
}

/// Accepts any text that holds at least one character.
pub fn assert_argument_not_empty(value: String) -> (r: Result<(), DomainError>)
    ensures
        value@.len() > 0 ==> r is Ok,
        value@.len() == 0 ==> (r matches Err(e) && e@ == DomainErrorView::Empty),
{
    if value.as_str().is_empty() {
        Err(DomainError::Empty)
    } else {
        Ok(())
    }
}

/// What the check of a timestamp comes to, given whether the text was parsed:
/// a text that was not parsed is `Invalid`.
pub fn timestamp_format_result(parsed: bool) -> (r: Result<(), DomainError>)
    ensures
        parsed ==> r is Ok,
        !parsed ==> (r matches Err(e) && e@ == DomainErrorView::Invalid(INVALID_TIMESTAMP@)),
{
    if parsed {
        Ok(())
    } else {
        Err(DomainError::Invalid(String::from_str(INVALID_TIMESTAMP)))
    }
}

/// Accepts exactly the texts that `chrono` parses under [`TIMESTAMP_FORMAT`].
pub fn assert_argument_timestamp_format(value: String) -> (r: Result<(), DomainError>)
    ensures
        chrono_parses(value@, TIMESTAMP_FORMAT@) ==> r is Ok,
        !chrono_parses(value@, TIMESTAMP_FORMAT@) ==> (r matches Err(e) && e@
            == DomainErrorView::Invalid(INVALID_TIMESTAMP@)),
{
    timestamp_format_result(parses_with_format(value.as_str(), TIMESTAMP_FORMAT))
}

} // verus!
