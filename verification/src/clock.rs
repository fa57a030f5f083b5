//! Wall-clock access.
//!
//! The processor projects a fired trigger's sample index onto wall-clock
//! time; everything after the one clock read is verified for every value
//! the clock could return.

use vstd::prelude::*;

verus! {

/// Relies on `chrono::Utc::now` and `chrono::DateTime::timestamp_micros`:
/// the current instant, in microseconds since the Unix epoch. `Utc::now`
/// refuses a system clock set before the epoch, so the result is never
/// negative. Nothing more is assumed: the result depends on the clock.
#[verifier::external_body]
pub(crate) fn now_unix_micros() -> (r: i64)
    ensures
        r >= 0,
{
    chrono::Utc::now().timestamp_micros()
}

/// Relies on `chrono::Utc::now` and `chrono::DateTime::format` with the
/// pattern `%Y-%m-%d_%H-%M-%S`: the current instant as a filesystem-safe
/// text stamp. The value depends on the clock, so only its shape is
/// assumed: the pattern renders six zero-padded numbers (the year to at
/// least four digits) and five separators, at least 19 characters in all.
#[verifier::external_body]
pub(crate) fn formatted_timestamp() -> (r: String)
    ensures
        r@.len() >= 19,
{
    chrono::Utc::now().format("%Y-%m-%d_%H-%M-%S").to_string()
}

} // verus!
