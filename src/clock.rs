use vstd::prelude::*;

use chrono::{Datelike, Timelike};

verus! {

/// A moment of the calendar, as plain numbers.
#[derive(Clone, Copy, Debug, PartialEq, Eq)]
pub struct Timestamp {
    pub year: i32,
    /// 1 to 12.
    pub month: u32,
    /// 1 to 31.
    pub day: u32,
    /// 0 to 23.
    pub hour: u32,
    /// 0 to 59.
    pub minute: u32,
    /// Days since Monday, 0 to 6.
    pub weekday: u32,
}

impl Timestamp {
    pub open spec fn wf(&self) -> bool {
        &&& 1 <= self.month <= 12
        &&& 1 <= self.day <= 31
        &&& self.hour < 24
        &&& self.minute < 60
        &&& self.weekday < 7
    }

    /// A timestamp from its parts; `None` where a part is out of range.
    pub fn new(
        year: i32,
        month: u32,
        day: u32,
        hour: u32,
        minute: u32,
        weekday: u32,
    ) -> (r: Option<Timestamp>)
        ensures
            match r {
                Some(t) => t.wf() && t == (Timestamp { year, month, day, hour, minute, weekday }),
                None => !(Timestamp { year, month, day, hour, minute, weekday }).wf(),
            },
    {
        let t = Timestamp { year, month, day, hour, minute, weekday };
        if 1 <= month && month <= 12 && 1 <= day && day <= 31 && hour < 24 && minute < 60
            && weekday < 7 {
            Some(t)
        } else {
            None
        }
    }
}

/// Relies on `chrono::Utc::now` and its `Datelike` / `Timelike` accessors, whose
/// documented ranges are month 1-12, day 1-31, hour 0-23, minute 0-59 and
/// `num_days_from_monday` 0-6. `Utc::now` panics when the system clock reads a
/// time before 1970, which depends on the machine, not on an argument.
#[verifier::external_body]
pub fn now_utc() -> (r: Timestamp)
    ensures
        r.wf(),
{
    let now = chrono::Utc::now();
    Timestamp {
        year: now.year(),
        month: now.month(),
        day: now.day(),
        hour: now.hour(),
        minute: now.minute(),
        weekday: now.weekday().num_days_from_monday(),
    }
}

/// The English name of month `m` (1 is January).
pub open spec fn month_name_of(m: u32) -> Seq<char> {
    if m == 1 {
        "January"@
    } else if m == 2 {
        "February"@
    } else if m == 3 {
        "March"@
    } else if m == 4 {
        "April"@
    } else if m == 5 {
        "May"@
    } else if m == 6 {
        "June"@
    } else if m == 7 {
        "July"@
    } else if m == 8 {
        "August"@
    } else if m == 9 {
        "September"@
    } else if m == 10 {
        "October"@
    } else if m == 11 {
        "November"@
    } else {
        "December"@
    }
}

/// The three-letter name of weekday `d` (0 is Monday).
pub open spec fn weekday_name_of(d: u32) -> Seq<char> {
    if d == 0 {
        "Mon"@
    } else if d == 1 {
        "Tue"@
    } else if d == 2 {
        "Wed"@
    } else if d == 3 {
        "Thu"@
    } else if d == 4 {
        "Fri"@
    } else if d == 5 {
        "Sat"@
    } else {
        "Sun"@
    }
}

/// Relies on `chrono::Month::try_from(u8)` and `Month::name`: 1 is "January",
/// through 12, "December".
#[verifier::external_body]
pub(crate) fn month_name(m: u32) -> (r: String)
    requires
        1 <= m <= 12,
    ensures
        r@ == month_name_of(m),
{
    match chrono::Month::try_from(m as u8) {
        Ok(month) => month.name().to_string(),
        Err(_) => String::new(),
    }
}

/// Relies on `chrono::Weekday::try_from(u8)` and the derived `Debug` of `Weekday`:
/// 0 is "Mon", through 6, "Sun".
#[verifier::external_body]
pub(crate) fn weekday_name(d: u32) -> (r: String)
    requires
        d < 7,
    ensures
        r@ == weekday_name_of(d),
{
    match chrono::Weekday::try_from(d as u8) {
        Ok(day) => format!("{:?}", day),
        Err(_) => String::new(),
    }
}

/// The character of decimal digit `d`.
pub open spec fn digit_char(d: nat) -> char {
    if d == 0 {
        '0'
    } else if d == 1 {
        '1'
    } else if d == 2 {
        '2'
    } else if d == 3 {
        '3'
    } else if d == 4 {
        '4'
    } else if d == 5 {
        '5'
    } else if d == 6 {
        '6'
    } else if d == 7 {
        '7'
    } else if d == 8 {
        '8'
    } else {
        '9'
    }
}

/// The decimal digits of `n`, without leading zeros.
pub open spec fn decimal(n: nat) -> Seq<char>
    decreases n,
{
    if n < 10 {
        seq![digit_char(n)]
    } else {
        decimal(n / 10).push(digit_char(n % 10))
    }
}

/// The decimal digits of `n`, with a leading zero below ten.
pub open spec fn padded2(n: nat) -> Seq<char> {
    if n < 10 {
        seq!['0', digit_char(n)]
    } else {
        decimal(n)
    }
}

/// The decimal form of `n`, with a minus sign when negative.
pub open spec fn signed_decimal(n: int) -> Seq<char> {
    if n < 0 {
        seq!['-'] + decimal((-n) as nat)
    } else {
        decimal(n as nat)
    }
}

fn digit(d: u32) -> (c: char)
    requires
        d < 10,
    ensures
        c == digit_char(d as nat),
{
    if d == 0 {
        '0'
    } else if d == 1 {
        '1'
    } else if d == 2 {
        '2'
    } else if d == 3 {
        '3'
    } else if d == 4 {
        '4'
    } else if d == 5 {
        '5'
    } else if d == 6 {
        '6'
    } else if d == 7 {
        '7'
    } else if d == 8 {
        '8'
    } else {
        '9'
    }
}

/// Appends the decimal digits of `n`.
pub fn push_decimal(out: &mut Vec<char>, n: u32)
    ensures
        final(out)@ == old(out)@ + decimal(n as nat),
    decreases n,
{
    if n >= 10 {
        push_decimal(out, n / 10);
    }
    out.push(digit(n % 10));
}

/// Appends the decimal digits of `n`, with a leading zero below ten.
pub fn push_padded2(out: &mut Vec<char>, n: u32)
    ensures
        final(out)@ == old(out)@ + padded2(n as nat),
{
    if n < 10 {
        out.push('0');
    }
    push_decimal(out, n);
}

/// Appends the decimal form of `n`, with a minus sign when negative.
pub fn push_signed(out: &mut Vec<char>, n: i32)
    ensures
        final(out)@ == old(out)@ + signed_decimal(n as int),
{
    if n < 0 {
        out.push('-');
        let m: i64 = -(n as i64);
        push_decimal(out, m as u32);
    } else {
        push_decimal(out, n as u32);
    }
}

} // verus!
