//! The proleptic Gregorian calendar, counted in days from 1970-01-01.

use vstd::prelude::*;

verus! {

/// Is `year` a leap year?
pub open spec fn is_leap_year(year: int) -> bool {
    year % 4 == 0 && (year % 100 != 0 || year % 400 == 0)
}

/// The number of days of the month `month` of `year`.
pub open spec fn days_in_month(year: int, month: int) -> int {
    if month == 2 {
        if is_leap_year(year) {
            29
        } else {
            28
        }
    } else if month == 4 || month == 6 || month == 9 || month == 11 {
        30
    } else {
        31
    }
}

/// The number of days of `year` that lie before the first of `month`.
pub open spec fn days_before_month(year: int, month: int) -> int
    decreases month,
{
    if month <= 1 {
        0
    } else {
        days_before_month(year, month - 1) + days_in_month(year, month - 1)
    }
}

/// The number of leap years among the years 1 to `year - 1`.
pub open spec fn leap_years_before(year: int) -> int {
    (year - 1) / 4 - (year - 1) / 100 + (year - 1) / 400
}

/// The number of days from 1970-01-01 to the first of January of `year`.
pub open spec fn days_before_year(year: int) -> int {
    365 * (year - 1970) + leap_years_before(year) - leap_years_before(1970)
}

/// The number of days from 1970-01-01 to the date given.
pub open spec fn days_from_civil(year: int, month: int, day: int) -> int {
    days_before_year(year) + days_before_month(year, month) + day - 1
}

/// The civil date (year, month, day) of the day that lies `days` days after
/// 1970-01-01 in the proleptic Gregorian calendar. The year is counted in
/// eras of 400 years that begin on the first of March.
pub open spec fn civil_from_days(days: int) -> (int, int, int) {
    let shifted = days + 719468;
    let era = shifted / 146097;
    let day_of_era = shifted - era * 146097;
    let year_of_era = (day_of_era - day_of_era / 1460 + day_of_era / 36524 - day_of_era / 146096)
        / 365;
    let day_of_year = day_of_era - (365 * year_of_era + year_of_era / 4 - year_of_era / 100);
    let shifted_month = (5 * day_of_year + 2) / 153;
    let day = day_of_year - (153 * shifted_month + 2) / 5 + 1;
    let month = if shifted_month < 10 {
        shifted_month + 3
    } else {
        shifted_month - 9
    };
    let year = year_of_era + era * 400 + if month <= 2 {
        1int
    } else {
        0int
    };
    (year, month, day)
}

/// The date that `civil_from_days` gives for a day count is a date of the
/// calendar, and it is the date that lies that many days after 1970-01-01.
pub proof fn lemma_civil_from_days(days: int)
    requires
        days >= 0,
    ensures
        civil_from_days(days).0 >= 1970,
        1 <= civil_from_days(days).1 <= 12,
        1 <= civil_from_days(days).2 <= days_in_month(
            civil_from_days(days).0,
            civil_from_days(days).1,
        ),
        days_from_civil(civil_from_days(days).0, civil_from_days(days).1, civil_from_days(days).2)
            == days,
{
    let shifted = days + 719468;
    let era = shifted / 146097;
    let doe = shifted - era * 146097;
    let yoe = (doe - doe / 1460 + doe / 36524 - doe / 146096) / 365;
    let doy = doe - (365 * yoe + yoe / 4 - yoe / 100);
    let mp = (5 * doy + 2) / 153;
    let d = doy - (153 * mp + 2) / 5 + 1;
    let m = if mp < 10 {
        mp + 3
    } else {
        mp - 9
    };
    let march_year = yoe + era * 400;
    let y = march_year + if m <= 2 {
        1int
    } else {
        0int
    };
    let leap_next = is_leap_year(march_year + 1);
    assert(era >= 4 && 0 <= doe <= 146096);
    lemma_day_of_year(doe);
    lemma_leap_of_march_year(era, yoe);
    lemma_month_of_day(doy, leap_next);
    lemma_month_table(y);
    lemma_march_years(era, yoe);
    assert(shifted == march_days(march_year) + doy);
    if m <= 2 {
        assert(days_before_month(y, m) + d - 1 == doy - 306);
        lemma_january(march_year);
    } else {
        assert(y == march_year);
        lemma_after_february(y, m, d, doy);
        lemma_march(march_year);
    }
    assert(days_from_civil(y, m, d) == days);
    assert(y >= 1970) by {
        if y < 1970 {
            lemma_before_1970(y, m, d);
        }
    }
}

/// The number of days from the first of March of the year 0 to the first of
/// March of `year`.
spec fn march_days(year: int) -> int {
    365 * year + year / 4 - year / 100 + year / 400
}

/// The first of March of a year of an era, counted in days.
proof fn lemma_march_years(era: int, yoe: int)
    requires
        0 <= era,
        0 <= yoe <= 399,
    ensures
        march_days(yoe + era * 400) == era * 146097 + 365 * yoe + yoe / 4 - yoe / 100,
{
    let year = yoe + era * 400;
    assert(year / 4 == yoe / 4 + era * 100);
    assert(year / 100 == yoe / 100 + era * 4);
    assert(year / 400 == era);
}

/// The first of January that follows the first of March of a year.
proof fn lemma_january(march_year: int)
    requires
        march_year >= 0,
    ensures
        days_before_year(march_year + 1) == march_days(march_year) + 306 - 719468,
{
}

/// The first of March of a year after its first of January.
proof fn lemma_march(year: int)
    requires
        year >= 1,
    ensures
        days_before_year(year) + 59 + (if is_leap_year(year) {
            1int
        } else {
            0int
        }) == march_days(year) - 719468,
{
    assert(leap_years_before(year + 1) == leap_years_before(year) + if is_leap_year(year) {
        1int
    } else {
        0int
    });
}

/// A day after February, counted from the first of March.
proof fn lemma_after_february(y: int, m: int, d: int, doy: int)
    requires
        3 <= m <= 12,
        ({
            let mp = (5 * doy + 2) / 153;
            mp == m - 3 && d == doy - (153 * mp + 2) / 5 + 1
        }),
        0 <= doy < 306,
    ensures
        days_before_month(y, m) + d - 1 == doy + 59 + if is_leap_year(y) {
            1int
        } else {
            0int
        },
{
    lemma_month_table(y);
}

/// No date before 1970 lies on or after 1970-01-01.
proof fn lemma_before_1970(y: int, m: int, d: int)
    requires
        y < 1970,
        1 <= m <= 12,
        1 <= d <= 31,
    ensures
        days_from_civil(y, m, d) < 0,
{
    lemma_month_table(y);
    lemma_year_length(y);
}

/// A year before 1970 begins at least 365 days before 1970 for each year between.
proof fn lemma_year_length(y: int)
    requires
        y < 1970,
    ensures
        days_before_year(y) <= -365 * (1970 - y),
    decreases 1970 - y,
{
    if y < 1969 {
        lemma_year_length(y + 1);
        assert(leap_years_before(y + 1) >= leap_years_before(y));
    }
}

/// The month and the day of a day of a year that begins in March.
proof fn lemma_month_of_day(doy: int, leap_next: bool)
    requires
        0 <= doy <= 365,
        doy == 365 ==> leap_next,
    ensures
        ({
            let mp = (5 * doy + 2) / 153;
            let d = doy - (153 * mp + 2) / 5 + 1;
            &&& 0 <= mp <= 11
            &&& 1 <= d
            &&& mp == 11 ==> d <= if leap_next {
                29int
            } else {
                28int
            }
            &&& (mp == 1 || mp == 3 || mp == 6 || mp == 8) ==> d <= 30
            &&& d <= 31
            &&& mp == 10 ==> doy - 306 == d - 1
            &&& mp == 11 ==> doy - 306 == 31 + d - 1
            &&& mp <= 9 <==> doy < 306
        }),
{
}

/// Within an era of 400 years the year of a day is found so that the day
/// lies within it.
proof fn lemma_day_of_year(doe: int)
    requires
        0 <= doe <= 146096,
    ensures
        ({
            let yoe = (doe - doe / 1460 + doe / 36524 - doe / 146096) / 365;
            let doy = doe - (365 * yoe + yoe / 4 - yoe / 100);
            &&& 0 <= yoe <= 399
            &&& 0 <= doy <= 365
            &&& doy == 365 ==> (yoe % 4 == 3 && (yoe % 100 != 99 || yoe == 399))
        }),
{
    if doe < 146096 {
        let century = doe / 36524;
        let in_century = doe - century * 36524;
        let cycle = in_century / 1461;
        let in_cycle = in_century - cycle * 1461;
        lemma_year_in_cycle(century, cycle, in_cycle);
    }
}

/// The same for a day given by its century of the era, its cycle of four
/// years within the century and its day within the cycle.
proof fn lemma_year_in_cycle(century: int, cycle: int, in_cycle: int)
    requires
        0 <= century <= 3,
        0 <= cycle <= 24,
        0 <= in_cycle <= 1460,
        cycle == 24 ==> in_cycle <= 1459,
    ensures
        ({
            let doe = century * 36524 + cycle * 1461 + in_cycle;
            let yoe = (doe - doe / 1460 + doe / 36524 - doe / 146096) / 365;
            let doy = doe - (365 * yoe + yoe / 4 - yoe / 100);
            &&& 0 <= yoe <= 399
            &&& 0 <= doy <= 365
            &&& doy == 365 ==> (yoe % 4 == 3 && (yoe % 100 != 99 || yoe == 399))
        }),
{
    let doe = century * 36524 + cycle * 1461 + in_cycle;
    let year_in_cycle = if in_cycle == 1460 {
        3int
    } else {
        in_cycle / 365
    };
    let expected = century * 100 + cycle * 4 + year_in_cycle;
    assert(doe / 36524 == century);
    assert(expected / 4 == century * 25 + cycle);
    assert(expected / 100 == century);
}

/// The year after a year of an era is a leap year where the year of the era
/// is the last of four but not the last of a hundred, or the last of the era.
proof fn lemma_leap_of_march_year(era: int, yoe: int)
    requires
        0 <= era,
        0 <= yoe <= 399,
    ensures
        is_leap_year(yoe + era * 400 + 1) == (yoe % 4 == 3 && (yoe % 100 != 99 || yoe == 399)),
{
    let year = yoe + era * 400 + 1;
    assert(year % 4 == (yoe + 1) % 4);
    assert(year % 100 == (yoe + 1) % 100);
    assert(year % 400 == (yoe + 1) % 400);
}

/// The days before each month of a year.
proof fn lemma_month_table(year: int)
    ensures
        days_before_month(year, 1) == 0,
        days_before_month(year, 2) == 31,
        days_before_month(year, 3) == 59 + if is_leap_year(year) { 1int } else { 0int },
        days_before_month(year, 4) == 90 + if is_leap_year(year) { 1int } else { 0int },
        days_before_month(year, 5) == 120 + if is_leap_year(year) { 1int } else { 0int },
        days_before_month(year, 6) == 151 + if is_leap_year(year) { 1int } else { 0int },
        days_before_month(year, 7) == 181 + if is_leap_year(year) { 1int } else { 0int },
        days_before_month(year, 8) == 212 + if is_leap_year(year) { 1int } else { 0int },
        days_before_month(year, 9) == 243 + if is_leap_year(year) { 1int } else { 0int },
        days_before_month(year, 10) == 273 + if is_leap_year(year) { 1int } else { 0int },
        days_before_month(year, 11) == 304 + if is_leap_year(year) { 1int } else { 0int },
        days_before_month(year, 12) == 334 + if is_leap_year(year) { 1int } else { 0int },
{
    reveal_with_fuel(days_before_month, 13);
}

} // verus!
