use vstd::prelude::*;

use vstd::string::StringExecFns;

use crate::text::{decimal, decimal_string, push_char};

verus! {

pub open spec fn is_leap(y: int) -> bool {
    (y % 4 == 0 && y % 100 != 0) || y % 400 == 0
}

pub open spec fn year_days(y: int) -> int {
    if is_leap(y) {
        366
    } else {
        365
    }
}

pub open spec fn month_days(y: int, m: int) -> int {
    if m == 2 {
        if is_leap(y) {
            29
        } else {
            28
        }
    } else if m == 4 || m == 6 || m == 9 || m == 11 {
        30
    } else {
        31
    }
}

/// Days from 1970-01-01 to the first day of year `y`.
pub open spec fn days_before_year(y: int) -> int
    decreases y - 1970,
{
    if y <= 1970 {
        0
    } else {
        days_before_year(y - 1) + year_days(y - 1)
    }
}

/// Days from the first of January of year `y` to the first day of month `m`.
pub open spec fn days_before_month(y: int, m: int) -> int
    decreases m,
{
    if m <= 1 {
        0
    } else {
        days_before_month(y, m - 1) + month_days(y, m - 1)
    }
}

/// A calendar date and time of day, from 1970 on.
#[derive(Clone, Copy, Debug, PartialEq, Eq, Structural)]
pub struct Date {
    pub year: u64,
    pub month: u64,
    pub day: u64,
    pub hour: u64,
    pub minute: u64,
    pub second: u64,
}

pub open spec fn valid_date(d: Date) -> bool {
    &&& d.year >= 1970
    &&& 1 <= d.month <= 12
    &&& 1 <= d.day <= month_days(d.year as int, d.month as int)
    &&& d.hour < 24
    &&& d.minute < 60
    &&& d.second < 60
}

/// The seconds from 1970-01-01 00:00:00 to the date.
pub open spec fn seconds_of(d: Date) -> int {
    (days_before_year(d.year as int) + days_before_month(d.year as int, d.month as int) + d.day - 1)
        * 86400 + d.hour * 3600 + d.minute * 60 + d.second
}

/// Two digits, with a leading zero below ten.
pub open spec fn pad2(n: nat) -> Seq<char> {
    if n < 10 {
        seq!['0'] + decimal(n)
    } else {
        decimal(n)
    }
}

/// `YYYY-MM-DD HH:MM:SS`.
pub open spec fn date_text(d: Date) -> Seq<char> {
    decimal(d.year as nat) + seq!['-'] + pad2(d.month as nat) + seq!['-'] + pad2(d.day as nat)
        + seq![' '] + pad2(d.hour as nat) + seq![':'] + pad2(d.minute as nat) + seq![':'] + pad2(
        d.second as nat,
    )
}

/// Local seconds since the epoch: `seconds` moved by `timezone` hours, held
/// within the range of `u64`.
pub open spec fn local_seconds(seconds: u64, timezone: i32) -> nat {
    let t = seconds + timezone * 3600;
    if t < 0 {
        0
    } else if t > u64::MAX {
        u64::MAX as nat
    } else {
        t as nat
    }
}

proof fn lemma_year_of_months(y: int)
    ensures
        days_before_month(y, 13) == year_days(y),
{
    reveal_with_fuel(days_before_month, 13);
}

proof fn lemma_days_before_year_grows(y: int)
    requires
        y >= 1970,
    ensures
        days_before_year(y) >= (y - 1970) * 365,
    decreases y - 1970,
{
    if y > 1970 {
        lemma_days_before_year_grows(y - 1);
    }
}

fn leap(y: u64) -> (r: bool)
    ensures
        r == is_leap(y as int),
{
    (y % 4 == 0 && y % 100 != 0) || y % 400 == 0
}

fn days_in_month(y: u64, m: u64) -> (r: u64)
    ensures
        r as int == month_days(y as int, m as int),
{
    if m == 2 {
        if leap(y) {
            29
        } else {
            28
        }
    } else if m == 4 || m == 6 || m == 9 || m == 11 {
        30
    } else {
        31
    }
}

fn push_pad2(s: &mut String, n: u64)
    ensures
        final(s)@ == old(s)@ + pad2(n as nat),
{
    if n < 10 {
        push_char(s, '0');
    }
    let t = decimal_string(n);
    s.append(t.as_str());
    proof {
        if n < 10 {
            assert(final(s)@ =~= old(s)@ + pad2(n as nat));
        } else {
            assert(final(s)@ =~= old(s)@ + pad2(n as nat));
        }
    }
}

impl Date {
    /// 1970-01-01 00:00:00.
    pub fn epoch() -> (r: Date)
        ensures
            valid_date(r),
            seconds_of(r) == 0,
    {
        Date { year: 1970, month: 1, day: 1, hour: 0, minute: 0, second: 0 }
    }

    /// Sets the date to the one `seconds` after 1970-01-01 00:00:00.
    pub fn update(&mut self, seconds: u64)
        ensures
            valid_date(*final(self)),
            seconds_of(*final(self)) == seconds,
    {
        let total_days = seconds / 86400;
        let rem = seconds % 86400;
        let mut days = total_days;
        let mut year: u64 = 1970;
        loop
            invariant
                1970 <= year,
                days <= total_days,
                days_before_year(year as int) + days == total_days,
            ensures
                1970 <= year,
                days_before_year(year as int) + days == total_days,
                days < year_days(year as int),
            decreases days,
        {
            let len: u64 = if leap(year) {
                366
            } else {
                365
            };
            if days < len {
                break;
            }
            days -= len;
            proof {
                lemma_days_before_year_grows(year + 1);
                assert((year + 1 - 1970) * 365 <= total_days) by (nonlinear_arith)
                    requires
                        days_before_year(year + 1) >= (year + 1 - 1970) * 365,
                        days_before_year(year + 1) <= total_days,
                ;
            }
            year += 1;
        }
        proof {
            lemma_year_of_months(year as int);
        }
        let mut month: u64 = 1;
        loop
            invariant
                1970 <= year,
                1 <= month <= 12,
                days_before_year(year as int) + days_before_month(year as int, month as int) + days
                    == total_days,
                days_before_month(year as int, month as int) + days < year_days(year as int),
                days_before_month(year as int, 13) == year_days(year as int),
            ensures
                1970 <= year,
                1 <= month <= 12,
                days_before_year(year as int) + days_before_month(year as int, month as int) + days
                    == total_days,
                days < month_days(year as int, month as int),
            decreases 12 - month,
        {
            let len = days_in_month(year, month);
            if days < len {
                break;
            }
            days -= len;
            if month == 12 {
                assert(false);
            }
            month += 1;
        }
        let hour = rem / 3600;
        let minute = rem % 3600 / 60;
        let second = rem % 60;
        assert(rem == hour * 3600 + minute * 60 + second) by (nonlinear_arith)
            requires
                rem < 86400,
                hour == rem / 3600,
                minute == rem % 3600 / 60,
                second == rem % 60,
        ;
        assert(seconds == total_days * 86400 + rem) by (nonlinear_arith)
            requires
                total_days == seconds / 86400,
                rem == seconds % 86400,
        ;
        *self = Date { year, month, day: days + 1, hour, minute, second };
    }

    /// The date as `YYYY-MM-DD HH:MM:SS`.
    pub fn to_string(&self) -> (r: String)
        ensures
            r@ == date_text(*self),
    {
        let mut s = decimal_string(self.year);
        push_char(&mut s, '-');
        push_pad2(&mut s, self.month);
        push_char(&mut s, '-');
        push_pad2(&mut s, self.day);
        push_char(&mut s, ' ');
        push_pad2(&mut s, self.hour);
        push_char(&mut s, ':');
        push_pad2(&mut s, self.minute);
        push_char(&mut s, ':');
        push_pad2(&mut s, self.second);
        assert(s@ =~= date_text(*self));
        s
    }
}

/// Whether `t` is the text of the date that lies `seconds` after the epoch.
pub open spec fn is_stamp(t: Seq<char>, seconds: nat) -> bool {
    exists|d: Date| valid_date(d) && seconds_of(d) == seconds && t == date_text(d)
}

/// The local time of day, as `YYYY-MM-DD HH:MM:SS`, for a clock that reads
/// `unix_seconds` and a zone `timezone` hours east of UTC.
pub fn now(unix_seconds: u64, timezone: i32) -> (r: String)
    ensures
        is_stamp(r@, local_seconds(unix_seconds, timezone)),
{
    let shift: i64 = timezone as i64 * 3600;
    let local: u64 = if shift < 0 {
        let back = (-shift) as u64;
        if unix_seconds < back {
            0
        } else {
            unix_seconds - back
        }
    } else {
        if unix_seconds > u64::MAX - shift as u64 {
            u64::MAX
        } else {
            unix_seconds + shift as u64
        }
    };
    assert(local as nat == local_seconds(unix_seconds, timezone));
    let mut d = Date::epoch();
    d.update(local);
    let r = d.to_string();
    assert(valid_date(d) && seconds_of(d) == local && r@ == date_text(d));
    r
}

} // verus!
