//! The day a past session of an agent was last written to, as the attach-a-session list
//! shows it.

use vstd::prelude::*;

use crate::board::day_lines::{days_from_civil, is_a_day, is_leap, lemma_mod_of_era, LocalDay};
use crate::text::{push_zero_padded, zero_padded};

verus! {

/// The civil date, as year, month and day, of a day counted from 1970-01-01 (Howard Hinnant's
/// `civil_from_days`, with March as the first month of the year so the leap day falls last).
pub open spec fn civil_from_days(days: int) -> (int, int, int) {
    let z = days + 719468;
    let era = z / 146097;
    let doe = z - era * 146097;
    let yoe = (doe - doe / 1460 + doe / 36524 - doe / 146096) / 365;
    let y = yoe + era * 400;
    let doy = doe - (365 * yoe + yoe / 4 - yoe / 100);
    let mp = (5 * doy + 2) / 153;
    let d = doy - (153 * mp + 2) / 5 + 1;
    let m = if mp < 10 {
        mp + 3
    } else {
        mp - 9
    };
    (if m <= 2 {
        y + 1
    } else {
        y
    }, m, d)
}

proof fn lemma_year_of_era(doe: u32)
    requires
        doe <= 146096,
    ensures
        doe / 1460 <= doe,
        doe / 146096 <= doe - doe / 1460 + doe / 36524,
        (doe - doe / 1460 + doe / 36524 - doe / 146096) / 365 <= 399,
{
    assert(doe <= 146096 ==> doe / 1460 <= doe && doe / 146096 <= doe - doe / 1460 + doe / 36524
        && (doe - doe / 1460 + doe / 36524 - doe / 146096) / 365 <= 399) by (bit_vector);
}

proof fn lemma_day_of_year(doe: u32, yoe: u32)
    requires
        doe <= 146096,
        yoe == (doe - doe / 1460 + doe / 36524 - doe / 146096) / 365,
    ensures
        yoe <= 399,
        365 * yoe + yoe / 4 - yoe / 100 <= doe,
        doe - (365 * yoe + yoe / 4 - yoe / 100) <= 365,
{
    assert(doe <= 146096 && yoe == (doe - doe / 1460 + doe / 36524 - doe / 146096) / 365 ==> yoe
        <= 399 && 365 * yoe + yoe / 4 - yoe / 100 <= doe && doe - (365 * yoe + yoe / 4 - yoe
        / 100) <= 365) by (bit_vector);
}

proof fn lemma_month_and_day(doy: u32)
    requires
        doy <= 365,
    ensures
        (5 * doy + 2) / 153 <= 11,
        (153 * ((5 * doy + 2) / 153) + 2) / 5 <= doy,
        doy - (153 * ((5 * doy + 2) / 153) + 2) / 5 + 1 <= 31,
{
    assert(doy <= 365 ==> (5 * doy + 2) / 153 <= 11 && (153 * ((5 * doy + 2) / 153) + 2) / 5
        <= doy && doy - (153 * ((5 * doy + 2) / 153) + 2) / 5 + 1 <= 31) by (bit_vector);
}

/// Within an era, a day of a March-based year of the era reads back as that year: the count
/// of days before it and the day of that year, as far as the year goes, give the year again.
proof fn lemma_year_of_era_back(yoe: u32, doy: u32)
    requires
        yoe <= 399,
        doy <= 364 || (doy == 365 && (yoe + 1) % 4 == 0 && ((yoe + 1) % 100 != 0 || (yoe + 1)
            % 400 == 0)),
    ensures
        ({
            let doe = 365 * yoe + yoe / 4 - yoe / 100 + doy;
            &&& doe <= 146096
            &&& (doe - doe / 1460 + doe / 36524 - doe / 146096) / 365 == yoe
        }),
{
    assert(yoe <= 399 && (doy <= 364 || (doy == 365 && (yoe + 1) % 4 == 0 && ((yoe + 1) % 100
        != 0 || (yoe + 1) % 400 == 0))) ==> 365 * yoe + yoe / 4 - yoe / 100 + doy <= 146096 && (
    (365 * yoe + yoe / 4 - yoe / 100 + doy) - (365 * yoe + yoe / 4 - yoe / 100 + doy) / 1460 + (
    365 * yoe + yoe / 4 - yoe / 100 + doy) / 36524 - (365 * yoe + yoe / 4 - yoe / 100 + doy)
        / 146096) / 365 == yoe) by (bit_vector);
}

/// A day of a month, counted in a March-based year, reads back as that month and day.
proof fn lemma_month_and_day_back(sh: u32, d: u32)
    requires
        sh <= 11,
        1 <= d,
        sh < 11 ==> (153 * sh + 2) / 5 + d - 1 < (153 * (sh + 1) + 2) / 5,
        sh == 11 ==> d <= 29,
    ensures
        ({
            let doy = (153 * sh + 2) / 5 + d - 1;
            &&& doy <= 365
            &&& (doy == 365 ==> sh == 11 && d == 29)
            &&& (5 * doy + 2) / 153 == sh
            &&& doy - (153 * sh + 2) / 5 + 1 == d
        }),
{
    assert(sh <= 11 && 1 <= d && (sh < 11 ==> (153 * sh + 2) / 5 + d - 1 < (153 * (sh + 1) + 2)
        / 5) && (sh == 11 ==> d <= 29) ==> (153 * sh + 2) / 5 + d - 1 <= 365 && ((153 * sh + 2)
        / 5 + d - 1 == 365 ==> sh == 11 && d == 29) && (5 * ((153 * sh + 2) / 5 + d - 1) + 2)
        / 153 == sh && ((153 * sh + 2) / 5 + d - 1) - (153 * sh + 2) / 5 + 1 == d) by (bit_vector);
}

/// Where in a March-based year a day of the calendar stands: the year's number (the one
/// before, for January and February), its month counted from March, and the day of that
/// year counted from 0.
pub open spec fn march_place(day: LocalDay) -> (int, int, int) {
    let m = day.month as int;
    let year = if m <= 2 {
        day.year as int - 1
    } else {
        day.year as int
    };
    let sh = if m > 2 {
        m - 3
    } else {
        m + 9
    };
    (year, sh, (153 * sh + 2) / 5 + day.day as int - 1)
}

/// What the calendar's month lengths come to in a March-based year: a day stands before the
/// next month's first day, and only the 29th of February is the year's 366th day.
pub proof fn lemma_month_fits(day: LocalDay)
    requires
        is_a_day(day),
    ensures
        ({
            let (year, sh, doy) = march_place(day);
            &&& 0 <= sh <= 11
            &&& sh < 11 ==> doy < (153 * (sh + 1) + 2) / 5
            &&& sh == 11 ==> day.day <= 29
            &&& sh == 11 && day.day == 29 ==> is_leap(year + 1)
        }),
{
    let m = day.month;
    let (year, sh, doy) = march_place(day);
    assert(day.year as int == if m <= 2 { year + 1 } else { year });
    if m == 1 { assert((153 * 10 + 2) / 5 == 306 && (153 * 11 + 2) / 5 == 337); }
    else if m == 2 { }
    else if m == 3 { assert((153 * 0 + 2) / 5 == 0 && (153 * 1 + 2) / 5 == 31); }
    else if m == 4 { assert((153 * 1 + 2) / 5 == 31 && (153 * 2 + 2) / 5 == 61); }
    else if m == 5 { assert((153 * 2 + 2) / 5 == 61 && (153 * 3 + 2) / 5 == 92); }
    else if m == 6 { assert((153 * 3 + 2) / 5 == 92 && (153 * 4 + 2) / 5 == 122); }
    else if m == 7 { assert((153 * 4 + 2) / 5 == 122 && (153 * 5 + 2) / 5 == 153); }
    else if m == 8 { assert((153 * 5 + 2) / 5 == 153 && (153 * 6 + 2) / 5 == 184); }
    else if m == 9 { assert((153 * 6 + 2) / 5 == 184 && (153 * 7 + 2) / 5 == 214); }
    else if m == 10 { assert((153 * 7 + 2) / 5 == 214 && (153 * 8 + 2) / 5 == 245); }
    else if m == 11 { assert((153 * 8 + 2) / 5 == 245 && (153 * 9 + 2) / 5 == 275); }
    else { assert((153 * 9 + 2) / 5 == 275 && (153 * 10 + 2) / 5 == 306); }
}

/// Reading a day count back as a date undoes counting the days to a date: every day of the
/// calendar comes back as itself.
pub proof fn lemma_civil_round_trip(day: LocalDay)
    requires
        is_a_day(day),
    ensures
        civil_from_days(days_from_civil(day.year as int, day.month as int, day.day as int)) == (
            day.year as int,
            day.month as int,
            day.day as int,
        ),
{
    let (year, sh, doy) = march_place(day);
    lemma_month_fits(day);
    let era = year / 400;
    let yoe = year - era * 400;
    vstd::arithmetic::div_mod::lemma_fundamental_div_mod(year, 400);
    vstd::arithmetic::div_mod::lemma_mod_bound(year, 400);
    assert(0 <= yoe < 400);
    lemma_month_and_day_back(sh as u32, day.day);
    if doy == 365 {
        lemma_mod_of_era(year + 1, era, yoe + 1, 4);
        lemma_mod_of_era(year + 1, era, yoe + 1, 100);
        lemma_mod_of_era(year + 1, era, yoe + 1, 400);
    }
    lemma_year_of_era_back(yoe as u32, doy as u32);
    let doe = 365 * yoe + yoe / 4 - yoe / 100 + doy;
    assert(0 <= doe <= 146096);
    let count = days_from_civil(day.year as int, day.month as int, day.day as int);
    assert(count == era * 146097 + doe - 719468);
    vstd::arithmetic::div_mod::lemma_fundamental_div_mod_converse(
        count + 719468,
        146097,
        era,
        doe,
    );
}

/// A moment as the date it falls on in UTC, written `2026-08-09`.
pub open spec fn utc_date_text(unix: nat) -> Seq<char> {
    let (year, month, day) = civil_from_days((unix / 86400) as int);
    zero_padded(year as nat, 4) + "-"@ + zero_padded(month as nat, 2) + "-"@ + zero_padded(
        day as nat,
        2,
    )
}

/// A moment reads as the date of its day: any moment of the day that lies `count` days after
/// 1970-01-01 reads as that day's date, the same as its first moment does.
pub proof fn law_a_moment_reads_as_the_date_of_its_day(day: LocalDay, second: nat)
    requires
        is_a_day(day),
        days_from_civil(day.year as int, day.month as int, day.day as int) >= 0,
        second < 86400,
    ensures
        ({
            let count = days_from_civil(day.year as int, day.month as int, day.day as int);
            utc_date_text((count * 86400 + second) as nat) == zero_padded(day.year as nat, 4) + "-"@
                + zero_padded(day.month as nat, 2) + "-"@ + zero_padded(day.day as nat, 2)
        }),
{
    let count = days_from_civil(day.year as int, day.month as int, day.day as int);
    lemma_civil_round_trip(day);
    vstd::arithmetic::div_mod::lemma_fundamental_div_mod_converse(
        count * 86400 + second,
        86400,
        count,
        second as int,
    );
}

/// The day a session was last written to, as `2026-08-09`.
///
/// A date rather than a relative age: the list is sorted newest first, so recency is
/// already readable, and a date does not change from one frame to the next.
pub fn utc_date_label(unix: u64) -> (said: String)
    ensures
        said@ == utc_date_text(unix as nat),
{
    let days = unix / 86_400;
    let z = days + 719_468;
    let era = z / 146_097;
    let doe64 = z - era * 146_097;
    assert(doe64 < 146_097) by (nonlinear_arith)
        requires
            era == z / 146_097,
            doe64 == z - era * 146_097,
    ;
    let doe = doe64 as u32;
    proof {
        lemma_year_of_era(doe);
    }
    let yoe = (doe - doe / 1460 + doe / 36_524 - doe / 146_096) / 365;
    proof {
        lemma_day_of_year(doe, yoe);
    }
    let doy = doe - (365 * yoe + yoe / 4 - yoe / 100);
    proof {
        lemma_month_and_day(doy);
    }
    let mp = (5 * doy + 2) / 153;
    let day = doy - (153 * mp + 2) / 5 + 1;
    let month = if mp < 10 {
        mp + 3
    } else {
        mp - 9
    };
    assert(era <= 1_000_000_000_000) by (nonlinear_arith)
        requires
            era == z / 146_097,
            z <= u64::MAX / 86_400 + 719_468,
    ;
    let year = yoe as u64 + era * 400;
    let year = if month <= 2 {
        year + 1
    } else {
        year
    };
    let mut said = String::new();
    push_zero_padded(&mut said, year, 4);
    said.append("-");
    push_zero_padded(&mut said, month as u64, 2);
    said.append("-");
    push_zero_padded(&mut said, day as u64, 2);
    said
}

} // verus!
