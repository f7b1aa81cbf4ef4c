//! How a byte count and a point in time are written out: the calls into
//! the `humansize` and `chrono` crates. Their contracts are believed,
//! not proved; what the crates write is named, not spelled out.

use chrono::DateTime;
use humansize::{format_size, DECIMAL};
use std::fmt::Write;
use vstd::prelude::*;

verus! {

/// A byte count as `humansize` writes it with its decimal options: in
/// units of 1000, such as `10 B` or `1.50 kB`.
pub uninterp spec fn size_text(bytes: u64) -> Seq<char>;

/// The point in time `secs` seconds and `nanos` nanoseconds after the
/// start of 1970 in UTC, as `chrono` writes it under the `strftime`
/// pattern `pattern`; `None` where `chrono` has no such point in time or
/// cannot write under that pattern.
pub uninterp spec fn date_text(secs: i64, nanos: u32, pattern: Seq<char>) -> Option<Seq<char>>;

/// `humansize::format_size` with the options `DECIMAL`. The text depends
/// on the byte count alone.
#[verifier::external_body]
pub(crate) fn format_bytes(bytes: u64) -> (text: String)
    ensures
        text@ == size_text(bytes),
{
    format_size(bytes, DECIMAL)
}

/// `DateTime::format` on the UTC time that `DateTime::from_timestamp`
/// makes of `secs` and `nanos`, written into a string. `None` where
/// `from_timestamp` gives no time, or where writing fails, which it does
/// on a pattern that `chrono` cannot read. The text depends on the three
/// arguments alone: the time zone is UTC and no locale is consulted.
#[verifier::external_body]
pub(crate) fn format_date(secs: i64, nanos: u32, pattern: &str) -> (text: Option<String>)
    ensures
        match text {
            Some(written) => date_text(secs, nanos, pattern@) == Some(written@),
            None => date_text(secs, nanos, pattern@) is None,
        },
{
    let moment = DateTime::from_timestamp(secs, nanos)?;
    let mut text = String::new();
    match write!(text, "{}", moment.format(pattern)) {
        Ok(()) => Some(text),
        Err(_) => None,
    }
}

} // verus!
