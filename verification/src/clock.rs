//! Wall-clock time: the calendar date of a day count and the timestamp text
//! that runs, step results and events carry.

use vstd::prelude::*;
use vstd::string::*;
use crate::calendar::{civil_from_days, days_from_civil, days_in_month, lemma_civil_from_days};
use crate::text::{push_padded, zero_padded};

verus! {

/// The largest day count whose calendar date `days_to_ymd` computes in 64 bits.
pub const MAX_DAYS: u64 = 18446744073708832147;

/// The timestamp text of the instant `secs` seconds after the epoch, in UTC:
/// `YYYY-MM-DDTHH:MM:SSZ`.
pub open spec fn iso8601(secs: nat) -> Seq<char> {
    let date = civil_from_days((secs / 86400) as int);
    let second_of_day = secs % 86400;
    zero_padded(date.0 as nat, 4) + "-"@ + zero_padded(date.1 as nat, 2) + "-"@ + zero_padded(
        date.2 as nat,
        2,
    ) + "T"@ + zero_padded(second_of_day / 3600, 2) + ":"@ + zero_padded(
        (second_of_day % 3600) / 60,
        2,
    ) + ":"@ + zero_padded(second_of_day % 60, 2) + "Z"@
}

/// The civil date (year, month, day) of the day that lies `days` days after
/// 1970-01-01.
pub fn days_to_ymd(days: u64) -> (r: (u64, u64, u64))
    requires
        days <= MAX_DAYS,
    ensures
        (r.0 as int, r.1 as int, r.2 as int) == civil_from_days(days as int),
        r.0 >= 1970,
        1 <= r.1 <= 12,
        1 <= r.2 <= days_in_month(r.0 as int, r.1 as int),
        days_from_civil(r.0 as int, r.1 as int, r.2 as int) == days,
{
    proof {
        lemma_civil_from_days(days as int);
    }
    let shifted: u64 = days + 719_468;
    let era: u64 = shifted / 146_097;
    let doe: u64 = shifted - era * 146_097;
    let yoe: u64 = (doe - doe / 1460 + doe / 36524 - doe / 146_096) / 365;
    let doy: u64 = doe - (365 * yoe + yoe / 4 - yoe / 100);
    let mp: u64 = (5 * doy + 2) / 153;
    let d: u64 = doy - (153 * mp + 2) / 5 + 1;
    let m: u64 = if mp < 10 {
        mp + 3
    } else {
        mp - 9
    };
    let y: u64 = yoe + era * 400;
    let y: u64 = if m <= 2 {
        y + 1
    } else {
        y
    };
    (y, m, d)
}

/// The timestamp text of the instant `secs` seconds after the epoch.
pub fn format_iso8601(secs: u64) -> (r: String)
    ensures
        r@ == iso8601(secs as nat),
{
    let days: u64 = secs / 86400;
    let time_secs: u64 = secs % 86400;
    let hours: u64 = time_secs / 3600;
    let minutes: u64 = (time_secs % 3600) / 60;
    let seconds: u64 = time_secs % 60;
    let (year, month, day) = days_to_ymd(days);
    let mut out = String::new();
    push_padded(&mut out, year, 4);
    out.append("-");
    push_padded(&mut out, month, 2);
    out.append("-");
    push_padded(&mut out, day, 2);
    out.append("T");
    push_padded(&mut out, hours, 2);
    out.append(":");
    push_padded(&mut out, minutes, 2);
    out.append(":");
    push_padded(&mut out, seconds, 2);
    out.append("Z");
    assert(out@ =~= iso8601(secs as nat));
    out
}

/// Reads the system clock with `std::time::SystemTime::now` and gives the
/// time since the epoch as whole seconds and the nanoseconds into the second;
/// both are zero where the clock stands before the epoch. Trusted; nothing is
/// claimed of the values.
#[verifier::external_body]
pub(crate) fn unix_now() -> (u64, u32) {
    let since =
        std::time::SystemTime::now().duration_since(std::time::UNIX_EPOCH).unwrap_or_default();
    (since.as_secs(), since.subsec_nanos())
}

/// The whole seconds since the epoch, as the system clock has them.
pub(crate) fn unix_now_secs() -> u64 {
    unix_now().0
}

/// The timestamp text of the present instant.
pub fn now_iso8601() -> (r: String)
    ensures
        exists|secs: nat| r@ == iso8601(secs),
{
    let secs = unix_now_secs();
    format_iso8601(secs)
}

} // verus!
