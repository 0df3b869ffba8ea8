//! The one place where this crate touches the system clock.

use vstd::prelude::*;

verus! {

/// Relies on `chrono::Utc::now` and `chrono::DateTime::to_rfc3339`: reads the
/// current UTC time and renders it as an RFC 3339 date-and-time string such as
/// `1996-12-19T16:39:57+00:00`. The result depends on the wall clock, so
/// nothing beyond nonemptiness is claimed of it.
#[verifier::external_body]
pub(crate) fn now_rfc3339() -> (r: String)
    ensures
        r@.len() > 0,
{
    chrono::Utc::now().to_rfc3339()
}

} // verus!
