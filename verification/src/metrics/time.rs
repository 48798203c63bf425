//! Reading instants: the present one from the clock, and those that runs
//! carry as text.

use vstd::prelude::*;
use vstd::string::*;
use crate::clock::unix_now;
use crate::metrics::model::Instant;

verus! {

/// The instant that `chrono::DateTime::parse_from_rfc3339` reads from a text,
/// as seconds since the epoch and nanoseconds into the second; `None` where
/// it refuses the text.
pub uninterp spec fn rfc3339_instant(ts: Seq<char>) -> Option<(i64, u32)>;

/// The instant that `chrono::NaiveDateTime::parse_from_str` reads from a text
/// under a format, taken as UTC; `None` where it refuses the text.
pub uninterp spec fn naive_datetime_instant(ts: Seq<char>, format: Seq<char>) -> Option<
    (i64, u32),
>;

/// Calls `chrono::DateTime::parse_from_rfc3339`. Trusted: the result is a
/// function of the text alone, named `rfc3339_instant`; what it is on a given
/// text is not stated here.
#[verifier::external_body]
fn parse_rfc3339(ts: &str) -> (r: Option<(i64, u32)>)
    ensures
        r == rfc3339_instant(ts@),
{
    match chrono::DateTime::parse_from_rfc3339(ts) {
        Ok(at) => Some((at.timestamp(), at.timestamp_subsec_nanos())),
        Err(_) => None,
    }
}

/// Calls `chrono::NaiveDateTime::parse_from_str` and takes the date and time
/// as UTC. Trusted: the result is a function of the text and the format
/// alone, named `naive_datetime_instant`.
#[verifier::external_body]
fn parse_naive_datetime(ts: &str, format: &str) -> (r: Option<(i64, u32)>)
    ensures
        r == naive_datetime_instant(ts@, format@),
{
    match chrono::NaiveDateTime::parse_from_str(ts, format) {
        Ok(at) => Some((at.and_utc().timestamp(), at.and_utc().timestamp_subsec_nanos())),
        Err(_) => None,
    }
}

/// The present instant, as the system clock has it; a clock that stands
/// before the epoch is read as the epoch.
pub(crate) fn now_instant() -> (r: Instant)
    ensures
        r.secs >= 0,
{
    let (secs, nanos) = unix_now();
    Instant {
        secs: if secs > i64::MAX as u64 {
            i64::MAX
        } else {
            secs as i64
        },
        nanos,
    }
}

/// `text` without the characters `c` it ends in.
pub open spec fn trimmed_end(text: Seq<char>, c: char) -> Seq<char>
    decreases text.len(),
{
    if text.len() > 0 && text.last() == c {
        trimmed_end(text.drop_last(), c)
    } else {
        text
    }
}

/// `text` without the characters `c` it ends in.
pub fn trim_end<'a>(text: &'a str, c: char) -> (r: &'a str)
    ensures
        r@ == trimmed_end(text@, c),
{
    let mut n = text.unicode_len();
    assert(text@.take(n as int) =~= text@);
    while n > 0 && text.get_char(n - 1) == c
        invariant
            n <= text@.len(),
            trimmed_end(text@, c) == trimmed_end(text@.take(n as int), c),
        decreases n,
    {
        assert(text@.take(n as int).drop_last() =~= text@.take(n - 1));
        n = n - 1;
    }
    text.substring_char(0, n)
}

/// The format of a timestamp without a time zone.
pub open spec fn naive_format() -> Seq<char> {
    "%Y-%m-%dT%H:%M:%S"@
}

/// The instant a completion time stands for: what the text says as an
/// RFC 3339 timestamp, else what it says, without the `Z` it may end in, as a
/// date and time without a time zone; `None` where it says neither.
pub open spec fn completed_instant(ts: Seq<char>) -> Option<Instant> {
    match rfc3339_instant(ts) {
        Some(at) => Some(Instant { secs: at.0, nanos: at.1 }),
        None => match naive_datetime_instant(trimmed_end(ts, 'Z'), naive_format()) {
            Some(at) => Some(Instant { secs: at.0, nanos: at.1 }),
            None => None,
        },
    }
}

/// Reads a completion time.
pub fn parse_completed_at(ts: &str) -> (r: Option<Instant>)
    ensures
        r == completed_instant(ts@),
{
    match parse_rfc3339(ts) {
        Some(at) => Some(Instant { secs: at.0, nanos: at.1 }),
        None => match parse_naive_datetime(trim_end(ts, 'Z'), "%Y-%m-%dT%H:%M:%S") {
            Some(at) => Some(Instant { secs: at.0, nanos: at.1 }),
            None => None,
        },
    }
}

} // verus!
