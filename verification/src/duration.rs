//! Human-readable breakdown of a duration.
//!
//! A duration reaches the library as two plain numbers every clock type can
//! supply: whole seconds, and the nanoseconds of the started second.  The
//! breakdown uses a year of 365.25 days (31,557,600 seconds) and a month of
//! 30.44 days (2,630,016 seconds), and renders only the parts that are
//! present, largest first, as in `1day2h3m4s`.

use vstd::prelude::*;

verus! {

/// A duration: whole seconds, and the nanoseconds of the started second.
#[derive(Debug, Clone, Copy, PartialEq, Eq, Structural)]
pub struct FormattedDuration {
    pub secs: u64,
    pub nanos: u32,
}

/// The calendar and clock parts of a duration, largest first.
#[derive(Debug, Clone, Copy, PartialEq, Eq, Structural)]
pub struct DurationParts {
    pub years: u64,
    pub months: u64,
    pub days: u64,
    pub hours: u64,
    pub minutes: u64,
    pub seconds: u64,
    pub millis: u32,
    pub micros: u32,
    pub nanos: u32,
}

/// The decimal digit `d` as a character.
pub open spec fn digit_char(d: nat) -> char {
    if d == 0 {
        '0'
    } else if d == 1 {
        '1'
    } else if d == 2 {
        '2'
    } else if d == 3 {
        '3'
    } else if d == 4 {
        '4'
    } else if d == 5 {
        '5'
    } else if d == 6 {
        '6'
    } else if d == 7 {
        '7'
    } else if d == 8 {
        '8'
    } else {
        '9'
    }
}

/// The decimal rendering of `n`, without leading zeros.
pub open spec fn dec_str(n: nat) -> Seq<char>
    decreases n,
{
    if n < 10 {
        seq![digit_char(n)]
    } else {
        dec_str(n / 10) + seq![digit_char(n % 10)]
    }
}

/// A counted part with a pluralized unit name: `2years`, `1year`, or nothing
/// when the count is zero.
pub open spec fn plural_part(n: u64, name: Seq<char>) -> Seq<char> {
    if n > 1 {
        dec_str(n as nat) + name + seq!['s']
    } else if n == 1 {
        dec_str(n as nat) + name
    } else {
        Seq::empty()
    }
}

/// A counted part with a unit symbol: `5h`, or nothing when the count is
/// zero.
pub open spec fn item_part(n: u64, name: Seq<char>) -> Seq<char> {
    if n > 0 {
        dec_str(n as nat) + name
    } else {
        Seq::empty()
    }
}

/// The full rendering of a duration: every non-zero part, largest first;
/// `0s` for the zero duration.
pub open spec fn rendered(d: FormattedDuration) -> Seq<char> {
    if d.secs == 0 && d.nanos == 0 {
        seq!['0', 's']
    } else {
        let ydays = d.secs % 31_557_600;
        let mdays = ydays % 2_630_016;
        let day_secs = mdays % 86400;
        plural_part(d.secs / 31_557_600, "year"@) + plural_part(ydays / 2_630_016, "month"@)
            + plural_part(mdays / 86400, "day"@) + item_part(day_secs / 3600, "h"@) + item_part(
            day_secs % 3600 / 60,
            "m"@,
        ) + item_part(day_secs % 60, "s"@) + item_part((d.nanos / 1_000_000) as u64, "ms"@)
            + item_part((d.nanos / 1000 % 1000) as u64, "us"@) + item_part(
            (d.nanos % 1000) as u64,
            "ns"@,
        )
    }
}

/// The decimal digit `d`, as a one-character text.
fn digit_str(d: u64) -> (r: &'static str)
    requires
        d < 10,
    ensures
        r@ == seq![digit_char(d as nat)],
{
    let r: &'static str = match d {
        0 => "0",
        1 => "1",
        2 => "2",
        3 => "3",
        4 => "4",
        5 => "5",
        6 => "6",
        7 => "7",
        8 => "8",
        _ => "9",
    };
    proof {
        reveal_strlit("0");
        reveal_strlit("1");
        reveal_strlit("2");
        reveal_strlit("3");
        reveal_strlit("4");
        reveal_strlit("5");
        reveal_strlit("6");
        reveal_strlit("7");
        reveal_strlit("8");
        reveal_strlit("9");
        assert(r@ =~= seq![digit_char(d as nat)]);
    }
    r
}

/// `n` rendered in decimal, without leading zeros.
pub fn u64_to_string(n: u64) -> (r: String)
    ensures
        r@ == dec_str(n as nat),
    decreases n,
{
    if n < 10 {
        digit_str(n).to_owned()
    } else {
        proof {
            assert(n / 10 < n) by (nonlinear_arith)
                requires
                    n >= 10,
            ;
        }
        let mut s = u64_to_string(n / 10);
        s.append(digit_str(n % 10));
        s
    }
}

/// `item` followed by the unit `name`, pluralized: `2years`, `1year`, or the
/// empty text for zero.
pub fn format_plural(item: u64, name: &str) -> (r: String)
    ensures
        r@ == plural_part(item, name@),
{
    if item > 1 {
        let mut s = u64_to_string(item);
        s.append(name);
        s.append("s");
        proof {
            reveal_strlit("s");
            assert(s@ =~= plural_part(item, name@));
        }
        s
    } else if item == 1 {
        let mut s = u64_to_string(item);
        s.append(name);
        s
    } else {
        String::new()
    }
}

/// `item` followed by the unit symbol `name`: `5h`, or the empty text for
/// zero.
pub fn format_item(item: u64, name: &str) -> (r: String)
    ensures
        r@ == item_part(item, name@),
{
    if item > 0 {
        let mut s = u64_to_string(item);
        s.append(name);
        s
    } else {
        String::new()
    }
}

impl FormattedDuration {
    /// A duration from whole seconds and the nanoseconds of the started
    /// second.
    pub fn new(secs: u64, nanos: u32) -> (r: Self)
        ensures
            r == (FormattedDuration { secs, nanos }),
    {
        FormattedDuration { secs, nanos }
    }

    /// The calendar and clock parts of the duration.
    pub fn parts(&self) -> (r: DurationParts)
        ensures
            ({
                let ydays = self.secs % 31_557_600;
                let mdays = ydays % 2_630_016;
                let day_secs = mdays % 86400;
                &&& r.years == self.secs / 31_557_600
                &&& r.months == ydays / 2_630_016
                &&& r.days == mdays / 86400
                &&& r.hours == day_secs / 3600
                &&& r.minutes == day_secs % 3600 / 60
                &&& r.seconds == day_secs % 60
                &&& r.millis == self.nanos / 1_000_000
                &&& r.micros == self.nanos / 1000 % 1000
                &&& r.nanos == self.nanos % 1000
            }),
    {
        let ydays = self.secs % 31_557_600;
        let mdays = ydays % 2_630_016;
        let day_secs = mdays % 86400;
        DurationParts {
            years: self.secs / 31_557_600,
            months: ydays / 2_630_016,
            days: mdays / 86400,
            hours: day_secs / 3600,
            minutes: day_secs % 3600 / 60,
            seconds: day_secs % 60,
            millis: self.nanos / 1_000_000,
            micros: self.nanos / 1000 % 1000,
            nanos: self.nanos % 1000,
        }
    }

    /// The duration rendered for people: every non-zero part, largest
    /// first; `0s` for the zero duration.
    pub fn display(&self) -> (r: String)
        ensures
            r@ == rendered(*self),
    {
        if self.secs == 0 && self.nanos == 0 {
            let r = "0s".to_owned();
            proof {
                reveal_strlit("0s");
                assert(r@ =~= seq!['0', 's']);
            }
            return r;
        }
        let p = self.parts();
        let mut s = format_plural(p.years, "year");
        s.append(format_plural(p.months, "month").as_str());
        s.append(format_plural(p.days, "day").as_str());
        s.append(format_item(p.hours, "h").as_str());
        s.append(format_item(p.minutes, "m").as_str());
        s.append(format_item(p.seconds, "s").as_str());
        s.append(format_item(p.millis as u64, "ms").as_str());
        s.append(format_item(p.micros as u64, "us").as_str());
        s.append(format_item(p.nanos as u64, "ns").as_str());
        s
    }
}

} // verus!
