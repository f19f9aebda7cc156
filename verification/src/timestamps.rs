//! Modification times as a listing shows them.

use vstd::prelude::*;

verus! {

/// The text that the calendar library writes for the moment `secs` seconds
/// after the start of 1970 in universal time, under the given pattern.
pub uninterp spec fn timestamp_text(secs: int, pattern: Seq<char>) -> Seq<char>;

/// Calls chrono's `DateTime::from_timestamp` with no nanoseconds, takes the
/// default date and time where that gives none, and writes the result with
/// `format` under `pattern` by `write_to`, which gives up where the pattern
/// cannot be followed and leaves what was written. The contract only gives
/// the resulting text its name: it is the same for the same count of
/// seconds and the same pattern.
#[verifier::external_body]
fn pattern_text(secs: i64, pattern: &str) -> (text: String)
    ensures
        text@ == timestamp_text(secs as int, pattern@),
{
    let mut text = String::new();
    let _ = chrono::DateTime::from_timestamp(secs, 0).unwrap_or_default().format(pattern).write_to(&mut text);
    text
}

/// The pattern of the time column: year, month, day, hour and minute, as in
/// `2024-05-17 09:30`.
pub open spec fn minute_pattern() -> Seq<char> {
    "%Y-%m-%d %H:%M"@
}

/// A count of seconds read as a signed number of 64 bits: the upper half of
/// the unsigned range wraps to the negative numbers.
pub open spec fn wrapped_seconds(secs: u64) -> int {
    if secs <= 0x7fff_ffff_ffff_ffff {
        secs as int
    } else {
        secs - 0x1_0000_0000_0000_0000
    }
}

/// The text of the time column for a modification time given in seconds
/// since the start of 1970.
pub open spec fn modified_text(secs: u64) -> Seq<char> {
    timestamp_text(wrapped_seconds(secs), minute_pattern())
}

/// Writes the time column for a modification time given in seconds since
/// the start of 1970.
pub fn format_timestamp(secs: u64) -> (text: String)
    ensures
        text@ == modified_text(secs),
{
    let signed: i64 = if secs <= 0x7fff_ffff_ffff_ffff {
        secs as i64
    } else {
        let low: u64 = secs - 0x8000_0000_0000_0000;
        (low as i64) + i64::MIN
    };
    pattern_text(signed, "%Y-%m-%d %H:%M")
}

} // verus!
