//! The date lines the DONE column draws between its cards: `---- September 21 ----` wherever,
//! reading down the column, the day a card arrived on changes. A column read newest first is
//! a record of what was finished when, and the lines are what makes the "when" legible.
//!
//! Only the column the dates are kept for draws them, and only while it keeps its cards in the
//! order they were put: a column sorted by title has its days scattered, and a line at every
//! change of day would be noise rather than a record.

use vstd::prelude::*;

use crate::board::attach::{civil_from_days, lemma_civil_round_trip, lemma_month_fits, march_place};
use crate::model::ColumnId;
use crate::text::{decimal, push_decimal};

verus! {

/// The column whose cards are dated as they arrive: the one finished work goes to.
pub const DATES_ARRIVALS_IN: &'static str = "done";

/// Whether a column is one that draws these lines: the dated column, kept in the order its
/// cards arrived in.
pub fn drawn_in(id: &ColumnId, sorted: bool) -> (drawn: bool)
    ensures
        drawn == (id@ == DATES_ARRIVALS_IN@ && !sorted),
{
    let dated = ColumnId::new(DATES_ARRIVALS_IN);
    id.is(&dated) && !sorted
}

/// A calendar day in this machine's time zone - which is the zone the person reading the
/// board is in, and the one "yesterday" means anything in.
#[derive(Clone, Copy, PartialEq, Eq, Debug, Structural)]
pub struct LocalDay {
    pub year: i32,
    /// January is 1.
    pub month: u32,
    pub day: u32,
}

/// Days from 1970-01-01 to a civil date, with March taken as the first month of the year so
/// that the leap day falls at the end of it (Howard Hinnant's `days_from_civil`).
pub open spec fn days_from_civil(year: int, month: int, day: int) -> int {
    let y = if month <= 2 {
        year - 1
    } else {
        year
    };
    let era = y / 400;
    let year_of_era = y - era * 400;
    let shifted = if month > 2 {
        month - 3
    } else {
        month + 9
    };
    let day_of_year = (153 * shifted + 2) / 5 + day - 1;
    let day_of_era = year_of_era * 365 + year_of_era / 4 - year_of_era / 100 + day_of_year;
    era * 146097 + day_of_era - 719468
}

/// The English name of a month, January being 1.
pub open spec fn month_name_of(month: int) -> Seq<char> {
    if month == 1 {
        "January"@
    } else if month == 2 {
        "February"@
    } else if month == 3 {
        "March"@
    } else if month == 4 {
        "April"@
    } else if month == 5 {
        "May"@
    } else if month == 6 {
        "June"@
    } else if month == 7 {
        "July"@
    } else if month == 8 {
        "August"@
    } else if month == 9 {
        "September"@
    } else if month == 10 {
        "October"@
    } else if month == 11 {
        "November"@
    } else {
        "December"@
    }
}

/// A signed number in decimal, with a minus in front of a negative one.
pub open spec fn signed_decimal(n: int) -> Seq<char> {
    if n < 0 {
        "-"@ + decimal((-n) as nat)
    } else {
        decimal(n as nat)
    }
}

/// What the line above a card of `day` says, read on `today`: the two days everyone knows by
/// name, and every other by its date - with the year only once it is not this year's.
pub open spec fn label_text(day: LocalDay, today: LocalDay) -> Seq<char> {
    if day == today {
        "today"@
    } else if days_from_civil(day.year as int, day.month as int, day.day as int) + 1
        == days_from_civil(today.year as int, today.month as int, today.day as int) {
        "yesterday"@
    } else if day.year == today.year {
        month_name_of(day.month as int) + " "@ + decimal(day.day as nat)
    } else {
        month_name_of(day.month as int) + " "@ + decimal(day.day as nat) + ", "@
            + signed_decimal(day.year as int)
    }
}

/// Whether the line above a card of `day`, read on `today`, names its month: it is neither
/// today nor yesterday.
pub open spec fn names_the_month(day: LocalDay, today: LocalDay) -> bool {
    day != today && days_from_civil(day.year as int, day.month as int, day.day as int) + 1
        != days_from_civil(today.year as int, today.month as int, today.day as int)
}

fn month_name(month: u32) -> (name: &'static str)
    requires
        1 <= month <= 12,
    ensures
        name@ == month_name_of(month as int),
{
    if month == 1 {
        "January"
    } else if month == 2 {
        "February"
    } else if month == 3 {
        "March"
    } else if month == 4 {
        "April"
    } else if month == 5 {
        "May"
    } else if month == 6 {
        "June"
    } else if month == 7 {
        "July"
    } else if month == 8 {
        "August"
    } else if month == 9 {
        "September"
    } else if month == 10 {
        "October"
    } else if month == 11 {
        "November"
    } else {
        "December"
    }
}

/// `i64::div_euclid(400)` for a year an `i32` can hold: the floor of the quotient.
fn era_of(year: i64) -> (era: i64)
    requires
        -3_000_000_000 <= year <= 3_000_000_000,
    ensures
        era == year / 400,
        -8_000_000 <= era <= 8_000_000,
{
    let lifted = (year + 3_200_000_000) as u64;
    let q = lifted / 400;
    assert(q as int - 8_000_000 == year / 400) by (nonlinear_arith)
        requires
            lifted == year + 3_200_000_000,
            q == lifted / 400,
    ;
    assert(q <= 16_000_000) by (nonlinear_arith)
        requires
            lifted <= 6_200_000_000,
            q == lifted / 400,
    ;
    q as i64 - 8_000_000
}

impl LocalDay {
    /// Days from 1970-01-01, which is what makes "the day before" a subtraction.
    pub fn days_since_epoch(self) -> (days: i64)
        ensures
            days == days_from_civil(self.year as int, self.month as int, self.day as int),
    {
        let year = self.year as i64 - (if self.month <= 2 {
            1i64
        } else {
            0i64
        });
        let era = era_of(year);
        let year_of_era = year - era * 400;
        assert(0 <= year_of_era < 400) by (nonlinear_arith)
            requires
                era == year / 400,
                year_of_era == year - era * 400,
        ;
        let month = self.month as u64;
        let shifted: u64 = if month > 2 {
            month - 3
        } else {
            month + 9
        };
        let yoe = year_of_era as u64;
        let day_of_year = ((153 * shifted + 2) / 5) as i64 + self.day as i64 - 1;
        let day_of_era = year_of_era * 365 + (yoe / 4) as i64 - (yoe / 100) as i64 + day_of_year;
        era * 146_097 + day_of_era - 719_468
    }

    /// What the line says: `today`, `yesterday`, or the date.
    pub fn label(self, today: LocalDay) -> (said: String)
        requires
            names_the_month(self, today) ==> 1 <= self.month <= 12,
        ensures
            said@ == label_text(self, today),
    {
        if self == today {
            return String::from_str("today");
        }
        if self.days_since_epoch() + 1 == today.days_since_epoch() {
            return String::from_str("yesterday");
        }
        let mut said = String::from_str(month_name(self.month));
        said.append(" ");
        push_decimal(&mut said, self.day as u64);
        if self.year != today.year {
            said.append(", ");
            if self.year < 0 {
                said.append("-");
                push_decimal(&mut said, (-(self.year as i64)) as u64);
            } else {
                push_decimal(&mut said, self.year as u64);
            }
        }
        said
    }
}

/// The walk down a column: which cards get a line above them, and what it says.
pub struct DayLines {
    pub today: LocalDay,
    /// The day of the last dated card, which the next card's day is a change from or not.
    pub previous: Option<LocalDay>,
}

impl DayLines {
    pub fn from(today: LocalDay) -> (lines: DayLines)
        ensures
            lines.today == today,
            lines.previous is None,
    {
        DayLines { today, previous: None }
    }

    /// The line above the next card down, if its day is a change from the card before it. A
    /// card with no day - one moved in before the board wrote days down - gets no line and
    /// changes nothing: the cards under it read as the day above until one says otherwise.
    pub fn line_above(&mut self, day: Option<LocalDay>) -> (line: Option<String>)
        requires
            day matches Some(d) ==> (old(self).previous != Some(d) && names_the_month(
                d,
                old(self).today,
            ) ==> 1 <= d.month <= 12),
        ensures
            final(self).today == old(self).today,
            match day {
                None => line is None && final(self).previous == old(self).previous,
                Some(d) => if old(self).previous == Some(d) {
                    line is None && final(self).previous == old(self).previous
                } else {
                    line matches Some(l) && l@ == label_text(d, old(self).today)
                        && final(self).previous == Some(d)
                },
            },
    {
        let day = match day {
            None => return None,
            Some(day) => day,
        };
        if let Some(previous) = self.previous {
            if previous == day {
                return None;
            }
        }
        self.previous = Some(day);
        Some(day.label(self.today))
    }
}

/// Whether a year has a February 29th.
pub open spec fn is_leap(year: int) -> bool {
    year % 4 == 0 && (year % 100 != 0 || year % 400 == 0)
}

/// How many days a month of a year has.
pub open spec fn days_in_month(year: int, month: int) -> int {
    if month == 2 {
        if is_leap(year) {
            29
        } else {
            28
        }
    } else if month == 4 || month == 6 || month == 9 || month == 11 {
        30
    } else {
        31
    }
}

/// A day the calendar has.
pub open spec fn is_a_day(day: LocalDay) -> bool {
    1 <= day.month <= 12 && 1 <= day.day <= days_in_month(day.year as int, day.month as int)
}

/// The day after a day, the way the calendar turns: the next day of the month, or the first of
/// the next month, or the first of the next year.
pub open spec fn day_after(day: LocalDay) -> LocalDay {
    if (day.day as int) < days_in_month(day.year as int, day.month as int) {
        LocalDay { day: (day.day + 1) as u32, ..day }
    } else if day.month < 12 {
        LocalDay { month: (day.month + 1) as u32, day: 1, ..day }
    } else {
        LocalDay { year: (day.year + 1) as i32, month: 1, day: 1 }
    }
}

/// The days before the first of March of a March-based year, counted from the start of its
/// four-hundred-year era, plus the eras before it.
pub open spec fn march_years(y: int) -> int {
    let era = y / 400;
    let year_of_era = y - era * 400;
    era * 146097 + year_of_era * 365 + year_of_era / 4 - year_of_era / 100
}

/// Counting one further: the quotient goes up by one exactly when the count lands on a
/// multiple.
proof fn lemma_next_quotient(a: int, d: int)
    requires
        0 < d,
    ensures
        (a + 1) / d == a / d + if (a + 1) % d == 0 { 1int } else { 0int },
        (a + 1) % d == if a % d + 1 == d { 0int } else { a % d + 1 },
{
    let q = a / d;
    let r = a % d;
    vstd::arithmetic::div_mod::lemma_fundamental_div_mod(a, d);
    vstd::arithmetic::div_mod::lemma_mod_bound(a, d);
    assert(a == d * q + r);
    if r + 1 < d {
        assert(a + 1 == q * d + (r + 1)) by (nonlinear_arith)
            requires
                a == d * q + r,
        ;
        vstd::arithmetic::div_mod::lemma_fundamental_div_mod_converse(a + 1, d, q, r + 1);
    } else {
        assert(a + 1 == (q + 1) * d + 0) by (nonlinear_arith)
            requires
                a == d * q + r,
                r + 1 == d,
        ;
        vstd::arithmetic::div_mod::lemma_fundamental_div_mod_converse(a + 1, d, q + 1, 0);
    }
}

/// The remainder by a divisor of 400 is the remainder of the year of the era.
pub(crate) proof fn lemma_mod_of_era(y: int, era: int, year_of_era: int, d: int)
    requires
        y == era * 400 + year_of_era,
        d == 4 || d == 100 || d == 400,
        0 <= year_of_era,
    ensures
        y % d == year_of_era % d,
{
    let q = year_of_era / d;
    let r = year_of_era % d;
    vstd::arithmetic::div_mod::lemma_fundamental_div_mod(year_of_era, d);
    vstd::arithmetic::div_mod::lemma_mod_bound(year_of_era, d);
    let k: int = if d == 4 { 100 } else if d == 100 { 4 } else { 1 };
    assert(k * d == 400);
    assert(y == (era * k + q) * d + r) by (nonlinear_arith)
        requires
            y == era * 400 + year_of_era,
            year_of_era == d * q + r,
            k * d == 400,
    ;
    vstd::arithmetic::div_mod::lemma_fundamental_div_mod_converse(y, d, era * k + q, r);
}

proof fn lemma_march_year_step(y: int)
    ensures
        march_years(y + 1) == march_years(y) + 365 + if is_leap(y + 1) { 1int } else { 0int },
{
    let era = y / 400;
    let yoe = y - era * 400;
    vstd::arithmetic::div_mod::lemma_fundamental_div_mod(y, 400);
    vstd::arithmetic::div_mod::lemma_mod_bound(y, 400);
    assert(yoe == y % 400);
    lemma_next_quotient(y, 400);
    lemma_next_quotient(yoe, 4);
    lemma_next_quotient(yoe, 100);
    if yoe < 399 {
        assert((y + 1) / 400 == era);
        lemma_mod_of_era(y + 1, era, yoe + 1, 4);
        lemma_mod_of_era(y + 1, era, yoe + 1, 100);
        lemma_mod_of_era(y + 1, era, yoe + 1, 400);
        assert((yoe + 1) % 400 == yoe + 1);
    } else {
        assert((y + 1) / 400 == era + 1);
        lemma_mod_of_era(y + 1, era + 1, 0, 4);
        lemma_mod_of_era(y + 1, era + 1, 0, 100);
        lemma_mod_of_era(y + 1, era + 1, 0, 400);
        assert(399int / 4 == 99);
        assert(399int / 100 == 3);
    }
}

/// The calendar turns one day at a time: the day after a day is one day further from the epoch,
/// across the end of a month, of February in a leap year or not, and of a year.
proof fn lemma_day_after_is_one_more(day: LocalDay)
    requires
        is_a_day(day),
        day.year < i32::MAX,
    ensures
        days_from_civil(day_after(day).year as int, day_after(day).month as int, day_after(day).day as int)
            == days_from_civil(day.year as int, day.month as int, day.day as int) + 1,
{
    let year = day.year as int;
    let month = day.month as int;
    let next = day_after(day);
    if (day.day as int) < days_in_month(year, month) {
    } else if month < 12 {
        if month == 2 {
            lemma_march_year_step(year - 1);
            assert(march_years(year - 1) == {
                let era = (year - 1) / 400;
                let year_of_era = (year - 1) - era * 400;
                era * 146097 + year_of_era * 365 + year_of_era / 4 - year_of_era / 100
            });
        }
    } else {
        assert(next.year as int == year + 1);
    }
}

/// The day before a day reads as `yesterday` on it, whatever the calendar does between them:
/// across the end of a month, of February, and of a year.
pub proof fn law_yesterday_is_the_day_before(day: LocalDay)
    requires
        is_a_day(day),
        day.year < i32::MAX,
    ensures
        label_text(day, day_after(day)) == "yesterday"@,
{
    lemma_day_after_is_one_more(day);
    assert(day != day_after(day));
}

/// Whether one day of the calendar comes before another.
pub open spec fn comes_before(a: LocalDay, b: LocalDay) -> bool {
    ||| a.year < b.year
    ||| a.year == b.year && a.month < b.month
    ||| a.year == b.year && a.month == b.month && a.day < b.day
}

/// How many days from 1970-01-01 a day lies, as the spec reads it.
pub open spec fn count_of(day: LocalDay) -> int {
    days_from_civil(day.year as int, day.month as int, day.day as int)
}

/// The first of January 1970 is day 0.
pub proof fn law_the_epoch_is_day_zero()
    ensures
        count_of(LocalDay { year: 1970, month: 1, day: 1 }) == 0,
{
    // January counts in the March-based year 1969, the 370th of its era of 400 years.
    assert(1969int / 400 == 4);
    assert((153 * 10 + 2) / 5 == 306);
    assert(369int / 4 == 92 && 369int / 100 == 3);
}

proof fn lemma_day_after_is_a_day(day: LocalDay)
    requires
        is_a_day(day),
        day.year < i32::MAX,
    ensures
        is_a_day(day_after(day)),
{
}

/// One day counts one more than another exactly when it is the next day of the calendar.
pub proof fn law_one_more_is_the_next_day(a: LocalDay, b: LocalDay)
    requires
        is_a_day(a),
        is_a_day(b),
        a.year < i32::MAX,
    ensures
        count_of(b) == count_of(a) + 1 <==> b == day_after(a),
{
    lemma_day_after_is_one_more(a);
    lemma_day_after_is_a_day(a);
    if count_of(b) == count_of(a) + 1 {
        lemma_civil_round_trip(b);
        lemma_civil_round_trip(day_after(a));
        let next = day_after(a);
        assert(civil_from_days(count_of(b)) == civil_from_days(count_of(next)));
        assert(b.year == next.year && b.month == next.month && b.day == next.day);
    }
}

proof fn lemma_march_years_grow(a: int, b: int)
    requires
        a < b,
    ensures
        march_years(a) + 365 + (if is_leap(a + 1) { 1int } else { 0int }) <= march_years(b),
    decreases b - a,
{
    lemma_march_year_step(a);
    if a + 1 < b {
        lemma_march_years_grow(a + 1, b);
    }
}

/// A later day counts more days from 1970-01-01.
pub proof fn law_later_days_count_more(a: LocalDay, b: LocalDay)
    requires
        is_a_day(a),
        is_a_day(b),
        comes_before(a, b),
    ensures
        count_of(a) < count_of(b),
{
    let (ya, sa, da) = march_place(a);
    let (yb, sb, db) = march_place(b);
    lemma_month_fits(a);
    lemma_month_fits(b);
    assert(count_of(a) == march_years(ya) + da - 719468);
    assert(count_of(b) == march_years(yb) + db - 719468);
    assert(12 * ya + sa == 12 * (a.year as int) + a.month as int - 3);
    assert(12 * yb + sb == 12 * (b.year as int) + b.month as int - 3);
    if ya < yb {
        lemma_march_years_grow(ya, yb);
        assert(da < 365 + (if is_leap(ya + 1) { 1int } else { 0int }));
    } else if sa < sb {
        assert(ya == yb);
        vstd::arithmetic::div_mod::lemma_div_is_ordered(153 * (sa + 1) + 2, 153 * sb + 2, 5);
    } else {
        assert(ya == yb && sa == sb);
    }
}

/// No two months go by one name: a line that names a card's month names that month and no
/// other.
pub proof fn law_months_are_named_apart(a: int, b: int)
    requires
        1 <= a <= 12,
        1 <= b <= 12,
        a != b,
    ensures
        month_name_of(a) != month_name_of(b),
{
    reveal_strlit("January");
    reveal_strlit("February");
    reveal_strlit("March");
    reveal_strlit("April");
    reveal_strlit("May");
    reveal_strlit("June");
    reveal_strlit("July");
    reveal_strlit("August");
    reveal_strlit("September");
    reveal_strlit("October");
    reveal_strlit("November");
    reveal_strlit("December");
    let x = month_name_of(a);
    let y = month_name_of(b);
    if x == y {
        assert(x.len() == y.len());
        assert(x[0] == y[0]);
        assert(x[2] == y[2]);
    }
}

/// A line above a card dated neither today nor yesterday begins with the name of the card's
/// own month, then the day of the month.
pub proof fn law_a_dated_line_begins_with_its_month(day: LocalDay, today: LocalDay)
    requires
        names_the_month(day, today),
    ensures
        label_text(day, today).take(month_name_of(day.month as int).len() as int) == month_name_of(
            day.month as int,
        ),
        label_text(day, today).subrange(
            month_name_of(day.month as int).len() as int,
            (month_name_of(day.month as int).len() + 1 + decimal(day.day as nat).len()) as int,
        ) == " "@ + decimal(day.day as nat),
{
    let name = month_name_of(day.month as int);
    let rest = " "@ + decimal(day.day as nat);
    if day.year == today.year {
        assert(label_text(day, today) == name + rest);
        assert((name + rest).take(name.len() as int) =~= name);
        assert((name + rest).subrange(name.len() as int, (name.len() + rest.len()) as int) =~= rest);
    } else {
        let tail = ", "@ + signed_decimal(day.year as int);
        assert(label_text(day, today) == name + rest + tail);
        assert((name + rest + tail).take(name.len() as int) =~= name);
        assert((name + rest + tail).subrange(name.len() as int, (name.len() + rest.len()) as int) =~= rest);
    }
    reveal_strlit(" ");
}

} // verus!
