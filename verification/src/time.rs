//! The moment of a request, to the second, in UTC, and its two renderings:
//! the date header's `YYYYMMDDTHHMMSSZ` and the credential scope's
//! `YYYYMMDD`.
use vstd::prelude::*;
use vstd::string::*;
use crate::text::{digit_char, padded, push_padded};

verus! {

/// A calendar date and a time of day, as plain numbers.
pub struct Civil {
    pub year: int,
    pub month: int,
    pub day: int,
    pub hour: int,
    pub minute: int,
    pub second: int,
}

pub open spec fn is_leap_year(year: int) -> bool {
    year % 4 == 0 && (year % 100 != 0 || year % 400 == 0)
}

/// Number of days of a month of the Gregorian calendar.
pub open spec fn days_in_month(year: int, month: int) -> int {
    if month == 2 {
        if is_leap_year(year) {
            29
        } else {
            28
        }
    } else if month == 4 || month == 6 || month == 9 || month == 11 {
        30
    } else {
        31
    }
}

/// The numbers name a moment of the years 0 to 9999.
pub open spec fn valid_civil(c: Civil) -> bool {
    &&& 0 <= c.year <= 9999
    &&& 1 <= c.month <= 12
    &&& 1 <= c.day <= days_in_month(c.year, c.month)
    &&& 0 <= c.hour <= 23
    &&& 0 <= c.minute <= 59
    &&& 0 <= c.second <= 59
}

/// The date as `YYYYMMDD`.
pub open spec fn date_text(c: Civil) -> Seq<char> {
    padded(c.year as nat, 4) + padded(c.month as nat, 2) + padded(c.day as nat, 2)
}

/// The moment as `YYYYMMDDTHHMMSSZ`.
pub open spec fn time_text(c: Civil) -> Seq<char> {
    date_text(c) + seq!['T'] + padded(c.hour as nat, 2) + padded(c.minute as nat, 2) + padded(
        c.second as nat,
        2,
    ) + seq!['Z']
}

pub proof fn lemma_padded_len(n: nat, width: nat)
    ensures
        padded(n, width).len() == width,
    decreases width,
{
    if width > 0 {
        lemma_padded_len(n / 10, (width - 1) as nat);
    }
}

/// A padded rendering holds decimal digits only.
pub proof fn lemma_padded_digits(n: nat, width: nat)
    ensures
        forall|i: int|
            0 <= i < padded(n, width).len() ==> '0' <= (#[trigger] padded(n, width)[i]) && padded(
                n,
                width,
            )[i] <= '9',
    decreases width,
{
    if width > 0 {
        let before = padded(n / 10, (width - 1) as nat);
        lemma_padded_digits(n / 10, (width - 1) as nat);
        assert forall|i: int| 0 <= i < padded(n, width).len() implies '0' <= (#[trigger] padded(
            n,
            width,
        )[i]) && padded(n, width)[i] <= '9' by {
            if i < before.len() {
                assert(padded(n, width)[i] == before[i]);
            }
        }
    }
}

/// Ten to the power `width`.
pub open spec fn pow10(width: nat) -> nat
    decreases width,
{
    if width == 0 {
        1
    } else {
        10 * pow10((width - 1) as nat)
    }
}

/// Numbers that fit into `width` digits and render alike are the same.
pub proof fn lemma_padded_injective(n: nat, m: nat, width: nat)
    requires
        n < pow10(width),
        m < pow10(width),
        padded(n, width) == padded(m, width),
    ensures
        n == m,
    decreases width,
{
    if width > 0 {
        let w = (width - 1) as nat;
        lemma_padded_len(n / 10, w);
        lemma_padded_len(m / 10, w);
        let a = padded(n / 10, w).push(digit_char((n % 10) as int));
        let b = padded(m / 10, w).push(digit_char((m % 10) as int));
        assert(a.drop_last() =~= padded(n / 10, w));
        assert(b.drop_last() =~= padded(m / 10, w));
        assert(a.last() == digit_char((n % 10) as int));
        assert(b.last() == digit_char((m % 10) as int));
        assert(n % 10 == m % 10);
        lemma_padded_injective(n / 10, m / 10, w);
    }
}

/// Dates that render alike are the same date.
pub proof fn lemma_date_text_injective(a: Civil, b: Civil)
    requires
        valid_civil(a),
        valid_civil(b),
        date_text(a) == date_text(b),
    ensures
        a.year == b.year,
        a.month == b.month,
        a.day == b.day,
{
    lemma_padded_len(a.year as nat, 4);
    lemma_padded_len(a.month as nat, 2);
    lemma_padded_len(a.day as nat, 2);
    lemma_padded_len(b.year as nat, 4);
    lemma_padded_len(b.month as nat, 2);
    lemma_padded_len(b.day as nat, 2);
    let ta = date_text(a);
    let tb = date_text(b);
    assert(ta.subrange(0, 4) =~= padded(a.year as nat, 4));
    assert(tb.subrange(0, 4) =~= padded(b.year as nat, 4));
    assert(ta.subrange(4, 6) =~= padded(a.month as nat, 2));
    assert(tb.subrange(4, 6) =~= padded(b.month as nat, 2));
    assert(ta.subrange(6, 8) =~= padded(a.day as nat, 2));
    assert(tb.subrange(6, 8) =~= padded(b.day as nat, 2));
    assert(pow10(4) == 10000 && pow10(2) == 100) by {
        reveal_with_fuel(pow10, 5);
    }
    lemma_padded_injective(a.year as nat, b.year as nat, 4);
    lemma_padded_injective(a.month as nat, b.month as nat, 2);
    lemma_padded_injective(a.day as nat, b.day as nat, 2);
}

/// Moments that render alike are the same moment.
pub proof fn lemma_time_text_injective(a: Civil, b: Civil)
    requires
        valid_civil(a),
        valid_civil(b),
        time_text(a) == time_text(b),
    ensures
        a == b,
{
    lemma_padded_len(a.year as nat, 4);
    lemma_padded_len(a.month as nat, 2);
    lemma_padded_len(a.day as nat, 2);
    lemma_padded_len(b.year as nat, 4);
    lemma_padded_len(b.month as nat, 2);
    lemma_padded_len(b.day as nat, 2);
    lemma_padded_len(a.hour as nat, 2);
    lemma_padded_len(a.minute as nat, 2);
    lemma_padded_len(a.second as nat, 2);
    lemma_padded_len(b.hour as nat, 2);
    lemma_padded_len(b.minute as nat, 2);
    lemma_padded_len(b.second as nat, 2);
    let ta = time_text(a);
    let tb = time_text(b);
    assert(ta.subrange(0, 8) =~= date_text(a));
    assert(tb.subrange(0, 8) =~= date_text(b));
    lemma_date_text_injective(a, b);
    assert(ta.subrange(9, 11) =~= padded(a.hour as nat, 2));
    assert(tb.subrange(9, 11) =~= padded(b.hour as nat, 2));
    assert(ta.subrange(11, 13) =~= padded(a.minute as nat, 2));
    assert(tb.subrange(11, 13) =~= padded(b.minute as nat, 2));
    assert(ta.subrange(13, 15) =~= padded(a.second as nat, 2));
    assert(tb.subrange(13, 15) =~= padded(b.second as nat, 2));
    assert(pow10(2) == 100) by {
        reveal_with_fuel(pow10, 3);
    }
    lemma_padded_injective(a.hour as nat, b.hour as nat, 2);
    lemma_padded_injective(a.minute as nat, b.minute as nat, 2);
    lemma_padded_injective(a.second as nat, b.second as nat, 2);
}

/// A moment in UTC, to the second, of the years 0 to 9999.
#[derive(Clone, Copy, Debug, PartialEq, Eq)]
pub struct Timestamp {
    year: u16,
    month: u8,
    day: u8,
    hour: u8,
    minute: u8,
    second: u8,
}

impl View for Timestamp {
    type V = Civil;

    closed spec fn view(&self) -> Civil {
        Civil {
            year: self.year as int,
            month: self.month as int,
            day: self.day as int,
            hour: self.hour as int,
            minute: self.minute as int,
            second: self.second as int,
        }
    }
}

/// The calendar date and time of day, in UTC, of the moment `secs`
/// seconds after the start of 1970, leap seconds not counted; nothing
/// for a moment that lies outside the calendar's range.
pub uninterp spec fn civil_of_unix(secs: int) -> Option<Civil>;

/// `chrono::DateTime::from_timestamp` with no nanoseconds, read field by
/// field: year, month, day, hour, minute and second of the moment `secs`
/// seconds after the start of 1970, in UTC. Nothing comes back where the
/// crate's function gives nothing.
#[verifier::external_body]
fn unix_fields(secs: i64) -> (r: Option<(i32, u32, u32, u32, u32, u32)>)
    ensures
        match r {
            Some(f) => civil_of_unix(secs as int) == Some(
                Civil {
                    year: f.0 as int,
                    month: f.1 as int,
                    day: f.2 as int,
                    hour: f.3 as int,
                    minute: f.4 as int,
                    second: f.5 as int,
                },
            ),
            None => civil_of_unix(secs as int) is None,
        },
{
    chrono::DateTime::from_timestamp(secs, 0).map(
        |t|
            (
                chrono::Datelike::year(&t),
                chrono::Datelike::month(&t),
                chrono::Datelike::day(&t),
                chrono::Timelike::hour(&t),
                chrono::Timelike::minute(&t),
                chrono::Timelike::second(&t),
            ),
    )
}

/// `std::time::SystemTime::elapsed` on `UNIX_EPOCH`: the whole seconds
/// that the system clock stands behind the start of 1970. Nothing comes
/// back where the clock stands before it, and nothing is claimed of the
/// number.
#[verifier::external_body]
fn seconds_since_epoch() -> (r: Option<u64>) {
    std::time::UNIX_EPOCH.elapsed().ok().map(|d| d.as_secs())
}

fn month_length(year: u16, month: u8) -> (n: u8)
    ensures
        n == days_in_month(year as int, month as int),
{
    if month == 2 {
        if year % 4 == 0 && (year % 100 != 0 || year % 400 == 0) {
            29
        } else {
            28
        }
    } else if month == 4 || month == 6 || month == 9 || month == 11 {
        30
    } else {
        31
    }
}

impl Timestamp {
    #[verifier::type_invariant]
    closed spec fn inv(&self) -> bool {
        valid_civil(self@)
    }

    /// The moment with the given fields, where they name one.
    pub fn new(year: i32, month: u32, day: u32, hour: u32, minute: u32, second: u32) -> (r: Option<
        Timestamp,
    >)
        ensures
            r is Some <==> valid_civil(
                (Civil {
                    year: year as int,
                    month: month as int,
                    day: day as int,
                    hour: hour as int,
                    minute: minute as int,
                    second: second as int,
                }),
            ),
            r is Some ==> r->0@ == (Civil {
                year: year as int,
                month: month as int,
                day: day as int,
                hour: hour as int,
                minute: minute as int,
                second: second as int,
            }),
    {
        if year < 0 || year > 9999 || month < 1 || month > 12 || day < 1 || day > 31 || hour > 23
            || minute > 59 || second > 59 {
            return None;
        }
        if day > month_length(year as u16, month as u8) as u32 {
            return None;
        }
        Some(
            Timestamp {
                year: year as u16,
                month: month as u8,
                day: day as u8,
                hour: hour as u8,
                minute: minute as u8,
                second: second as u8,
            },
        )
    }

    /// The moment `secs` seconds after the start of 1970, where it lies in
    /// the years 0 to 9999.
    pub fn from_unix(secs: i64) -> (r: Option<Timestamp>)
        ensures
            match civil_of_unix(secs as int) {
                Some(c) => if valid_civil(c) {
                    r is Some && r->0@ == c
                } else {
                    r is None
                },
                None => r is None,
            },
    {
        match unix_fields(secs) {
            Some((year, month, day, hour, minute, second)) => Timestamp::new(
                year,
                month,
                day,
                hour,
                minute,
                second,
            ),
            None => None,
        }
    }

    /// The present moment by the system clock, where the clock stands in
    /// the years 1970 to 9999: the calendar reading of the whole seconds
    /// that the clock stands behind the start of 1970. Which moment that
    /// is, and whether there is one, is for the clock to say.
    pub fn now() -> (r: Option<Timestamp>)
        ensures
            r is Some ==> valid_civil(r->0@),
            r is Some ==> exists|secs: int|
                0 <= secs <= i64::MAX && #[trigger] civil_of_unix(secs) == Some(r->0@),
    {
        match seconds_since_epoch() {
            Some(secs) => {
                if secs > 0x7fff_ffff_ffff_ffff {
                    None
                } else {
                    Timestamp::from_unix(secs as i64)
                }
            },
            None => None,
        }
    }

    pub fn year(&self) -> (n: u16)
        ensures
            n == self@.year,
            valid_civil(self@),
    {
        proof {
            use_type_invariant(self);
        }
        self.year
    }

    pub fn month(&self) -> (n: u8)
        ensures
            n == self@.month,
            valid_civil(self@),
    {
        proof {
            use_type_invariant(self);
        }
        self.month
    }

    pub fn day(&self) -> (n: u8)
        ensures
            n == self@.day,
            valid_civil(self@),
    {
        proof {
            use_type_invariant(self);
        }
        self.day
    }

    pub fn hour(&self) -> (n: u8)
        ensures
            n == self@.hour,
            valid_civil(self@),
    {
        proof {
            use_type_invariant(self);
        }
        self.hour
    }

    pub fn minute(&self) -> (n: u8)
        ensures
            n == self@.minute,
            valid_civil(self@),
    {
        proof {
            use_type_invariant(self);
        }
        self.minute
    }

    pub fn second(&self) -> (n: u8)
        ensures
            n == self@.second,
            valid_civil(self@),
    {
        proof {
            use_type_invariant(self);
        }
        self.second
    }
}

/// Appends the date of `t` as `YYYYMMDD`.
pub fn push_date(out: &mut String, t: &Timestamp)
    ensures
        final(out)@ == old(out)@ + date_text(t@),
        valid_civil(t@),
{
    push_padded(out, t.year() as u32, 4);
    push_padded(out, t.month() as u32, 2);
    push_padded(out, t.day() as u32, 2);
    assert(out@ =~= old(out)@ + date_text(t@));
}

/// The date of `t` as `YYYYMMDD`, the form that the credential scope
/// takes.
pub fn aws_format_date(t: &Timestamp) -> (s: String)
    ensures
        s@ == date_text(t@),
        valid_civil(t@),
{
    let mut s = String::new();
    push_date(&mut s, t);
    s
}

/// The moment `t` as `YYYYMMDDTHHMMSSZ`, the form that the date header
/// takes.
pub fn aws_format_time(t: &Timestamp) -> (s: String)
    ensures
        s@ == time_text(t@),
        valid_civil(t@),
{
    let mut s = String::new();
    push_date(&mut s, t);
    s.push('T');
    push_padded(&mut s, t.hour() as u32, 2);
    push_padded(&mut s, t.minute() as u32, 2);
    push_padded(&mut s, t.second() as u32, 2);
    s.push('Z');
    assert(s@ =~= time_text(t@));
    s
}

} // verus!
