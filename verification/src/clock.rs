//! The current UTC time, and the compact timestamp made from it
//! (`YYYYMMDDhhmmss`, as chrono's `%Y%m%d%H%M%S` writes it).

use vstd::prelude::*;

use crate::text::{decimal, digit_char, push_decimal, string_from_chars};

verus! {

/// A UTC calendar date and time of day, as plain numbers.
#[derive(Debug, Clone, Copy, PartialEq, Eq, Structural)]
pub struct UtcTime {
    pub year: i32,
    pub month: u32,
    pub day: u32,
    pub hour: u32,
    pub minute: u32,
    pub second: u32,
}

impl UtcTime {
    /// The ranges a reading of the system clock lies in: a year from 1970
    /// (the clock cannot be read before the Unix epoch) to 262143 (the last
    /// year chrono represents), a month 1 to 12, a day 1 to 31, an hour 0
    /// to 23, a minute and a second 0 to 59.
    pub open spec fn valid(self) -> bool {
        &&& 1970 <= self.year <= 262143
        &&& 1 <= self.month <= 12
        &&& 1 <= self.day <= 31
        &&& self.hour <= 23
        &&& self.minute <= 59
        &&& self.second <= 59
    }
}

/// Whether the fields of `t` lie in the ranges chrono gives them: a year it
/// represents (-262144 to 262143), a month 1 to 12, a day 1 to 31, an hour
/// 0 to 23, a minute and a second 0 to 59.
pub open spec fn calendar_ranges(t: UtcTime) -> bool {
    &&& -262144 <= t.year <= 262143
    &&& 1 <= t.month <= 12
    &&& 1 <= t.day <= 31
    &&& t.hour <= 23
    &&& t.minute <= 59
    &&& t.second <= 59
}

/// Whole seconds since the Unix epoch as the system clock reads them now:
/// `SystemTime::now().duration_since(UNIX_EPOCH)`, in whole seconds, or
/// nothing when the clock reads before the epoch. Nothing is claimed of the
/// value, which depends on the clock.
#[verifier::external_body]
fn unix_seconds_now() -> (secs: Option<u64>) {
    match std::time::SystemTime::now().duration_since(std::time::UNIX_EPOCH) {
        Ok(d) => Some(d.as_secs()),
        Err(_) => None,
    }
}

/// The UTC calendar fields chrono gives for `secs` seconds after the Unix
/// epoch, or nothing when `secs` lies outside the times chrono represents.
pub uninterp spec fn utc_fields_of(secs: i64) -> Option<UtcTime>;

/// chrono's `DateTime::from_timestamp(secs, 0)`, read as calendar fields
/// (`Datelike::year`, `month`, `day`, `Timelike::hour`, `minute`, `second`).
/// Trusted: the result is [`utc_fields_of`] of `secs`, which depends on
/// `secs` alone; the fields lie in the ranges chrono documents for them (a
/// whole second is never a leap second); and a time not before the epoch
/// has a year from 1970 on.
#[verifier::external_body]
fn utc_fields(secs: i64) -> (t: Option<UtcTime>)
    ensures
        t == utc_fields_of(secs),
        t matches Some(f) ==> calendar_ranges(f),
        secs >= 0 ==> (t matches Some(f) ==> f.year >= 1970),
{
    match chrono::DateTime::from_timestamp(secs, 0) {
        Some(dt) => Some(UtcTime {
            year: chrono::Datelike::year(&dt),
            month: chrono::Datelike::month(&dt),
            day: chrono::Datelike::day(&dt),
            hour: chrono::Timelike::hour(&dt),
            minute: chrono::Timelike::minute(&dt),
            second: chrono::Timelike::second(&dt),
        }),
        None => None,
    }
}

/// The UTC time of `secs` seconds after the Unix epoch, when chrono
/// represents it.
pub fn utc_time_at(secs: u64) -> (t: Option<UtcTime>)
    ensures
        secs <= i64::MAX ==> t == utc_fields_of(secs as i64),
        secs > i64::MAX ==> t is None,
        t matches Some(f) ==> f.valid(),
{
    if secs > i64::MAX as u64 {
        None
    } else {
        utc_fields(secs as i64)
    }
}

/// The current UTC time, or nothing when the clock reads before the Unix
/// epoch or beyond the times chrono represents.
pub fn utc_now() -> (now: Option<UtcTime>)
    ensures
        now matches Some(t) ==> t.valid(),
{
    match unix_seconds_now() {
        Some(secs) => utc_time_at(secs),
        None => None,
    }
}

/// `n` (below 100) as two digits, zero-padded.
pub open spec fn two_digits(n: nat) -> Seq<char> {
    seq![digit_char(n / 10), digit_char(n % 10)]
}

/// A year from 1000 on as `%Y` writes it: its four digits up to 9999, and
/// beyond that a `+` sign before its digits.
pub open spec fn year_text(year: int) -> Seq<char> {
    if year <= 9999 {
        decimal(year as nat)
    } else {
        seq!['+'] + decimal(year as nat)
    }
}

/// The compact timestamp of `t`: year, month, day, hour, minute and second,
/// each field but the year zero-padded to two digits (`%Y%m%d%H%M%S`).
pub open spec fn stamp_text(t: UtcTime) -> Seq<char> {
    year_text(t.year as int) + two_digits(t.month as nat) + two_digits(t.day as nat) + two_digits(
        t.hour as nat,
    ) + two_digits(t.minute as nat) + two_digits(t.second as nat)
}

/// Whether `c` is one of the digits `0` to `9`.
pub open spec fn is_digit(c: char) -> bool {
    '0' <= c <= '9'
}

proof fn lemma_decimal_digits(n: nat)
    ensures
        forall|i: int| 0 <= i < decimal(n).len() ==> is_digit(#[trigger] decimal(n)[i]),
        n < 10 ==> decimal(n).len() == 1,
        10 <= n < 100 ==> decimal(n).len() == 2,
        100 <= n < 1000 ==> decimal(n).len() == 3,
        1000 <= n < 10000 ==> decimal(n).len() == 4,
        n >= 10000 ==> decimal(n).len() >= 5,
    decreases n,
{
    if n >= 10 {
        lemma_decimal_digits(n / 10);
        assert forall|i: int| 0 <= i < decimal(n).len() implies is_digit(#[trigger] decimal(n)[i]) by {
            if i < decimal(n).len() - 1 {
                assert(decimal(n)[i] == decimal(n / 10)[i]);
            }
        }
    }
}

/// The timestamp of a clock reading is 14 digits until the year 9999, and
/// at least 14 characters, ending in ten digits, in every case.
pub proof fn law_stamp_shape(t: UtcTime)
    requires
        t.valid(),
    ensures
        stamp_text(t).len() >= 14,
        forall|i: int|
            stamp_text(t).len() - 10 <= i < stamp_text(t).len() ==> is_digit(
                #[trigger] stamp_text(t)[i],
            ),
        t.year <= 9999 ==> stamp_text(t).len() == 14,
        t.year <= 9999 ==> forall|i: int| 0 <= i < 14 ==> is_digit(#[trigger] stamp_text(t)[i]),
{
    lemma_decimal_digits(t.year as nat);
    let y = year_text(t.year as int);
    let rest = two_digits(t.month as nat) + two_digits(t.day as nat) + two_digits(t.hour as nat)
        + two_digits(t.minute as nat) + two_digits(t.second as nat);
    assert(stamp_text(t) =~= y + rest);
    assert forall|i: int| 0 <= i < rest.len() implies is_digit(#[trigger] rest[i]) by {
        assert(rest =~= seq![
            digit_char((t.month / 10) as nat), digit_char((t.month % 10) as nat),
            digit_char((t.day / 10) as nat), digit_char((t.day % 10) as nat),
            digit_char((t.hour / 10) as nat), digit_char((t.hour % 10) as nat),
            digit_char((t.minute / 10) as nat), digit_char((t.minute % 10) as nat),
            digit_char((t.second / 10) as nat), digit_char((t.second % 10) as nat),
        ]);
    }
    assert forall|i: int| stamp_text(t).len() - 10 <= i < stamp_text(t).len() implies is_digit(
        #[trigger] stamp_text(t)[i],
    ) by {
        assert(stamp_text(t)[i] == rest[i - y.len()]);
    }
    if t.year <= 9999 {
        assert forall|i: int| 0 <= i < 14 implies is_digit(#[trigger] stamp_text(t)[i]) by {
            if i < 4 {
                assert(stamp_text(t)[i] == decimal(t.year as nat)[i]);
            } else {
                assert(stamp_text(t)[i] == rest[i - 4]);
            }
        }
    }
}

/// The numeric value of a digit character.
pub open spec fn digit_value(c: char) -> int {
    c as int - '0' as int
}

proof fn lemma_digit_char_value(d: nat)
    requires
        d < 10,
    ensures
        digit_value(digit_char(d)) == d,
{
}

proof fn lemma_four_digit_year(y: nat)
    requires
        1000 <= y <= 9999,
    ensures
        decimal(y).len() == 4,
        digit_value(decimal(y)[0]) == y / 1000,
        digit_value(decimal(y)[1]) == (y / 100) % 10,
        digit_value(decimal(y)[2]) == (y / 10) % 10,
        digit_value(decimal(y)[3]) == y % 10,
{
    let a = y / 10;
    let b = a / 10;
    let c = b / 10;
    assert(a / 10 == y / 100);
    assert(b / 10 == y / 1000);
    assert(decimal(c) == seq![digit_char(c)]);
    assert(decimal(b) == decimal(c).push(digit_char(b % 10)));
    assert(decimal(a) == decimal(b).push(digit_char(a % 10)));
    assert(decimal(y) == decimal(a).push(digit_char(y % 10)));
    lemma_digit_char_value(c);
    lemma_digit_char_value(b % 10);
    lemma_digit_char_value(a % 10);
    lemma_digit_char_value(y % 10);
}

/// Each field of a clock reading stands at its own place in the timestamp:
/// the last ten characters are the two digits of the month, the day, the
/// hour (0 to 23), the minute and the second, in that order; before them
/// stand the four digits of the year (up to 9999), or a `+` and the year's
/// digits beyond that.
pub proof fn law_stamp_fields(t: UtcTime)
    requires
        t.valid(),
    ensures
        ({
            let s = stamp_text(t);
            let n = s.len() as int;
            &&& n >= 14
            &&& digit_value(s[n - 10]) == t.month / 10 && digit_value(s[n - 9]) == t.month % 10
            &&& digit_value(s[n - 8]) == t.day / 10 && digit_value(s[n - 7]) == t.day % 10
            &&& digit_value(s[n - 6]) == t.hour / 10 && digit_value(s[n - 5]) == t.hour % 10
            &&& digit_value(s[n - 4]) == t.minute / 10 && digit_value(s[n - 3]) == t.minute % 10
            &&& digit_value(s[n - 2]) == t.second / 10 && digit_value(s[n - 1]) == t.second % 10
            &&& t.year <= 9999 ==> {
                &&& n == 14
                &&& digit_value(s[0]) == t.year / 1000
                &&& digit_value(s[1]) == (t.year / 100) % 10
                &&& digit_value(s[2]) == (t.year / 10) % 10
                &&& digit_value(s[3]) == t.year % 10
            }
            &&& t.year > 9999 ==> s[0] == '+'
        }),
{
    let y = year_text(t.year as int);
    let s = stamp_text(t);
    lemma_decimal_digits(t.year as nat);
    assert(y.len() >= 4);
    let n = s.len() as int;
    assert(n == y.len() + 10);
    assert(s[n - 10] == digit_char((t.month / 10) as nat));
    assert(s[n - 9] == digit_char((t.month % 10) as nat));
    assert(s[n - 8] == digit_char((t.day / 10) as nat));
    assert(s[n - 7] == digit_char((t.day % 10) as nat));
    assert(s[n - 6] == digit_char((t.hour / 10) as nat));
    assert(s[n - 5] == digit_char((t.hour % 10) as nat));
    assert(s[n - 4] == digit_char((t.minute / 10) as nat));
    assert(s[n - 3] == digit_char((t.minute % 10) as nat));
    assert(s[n - 2] == digit_char((t.second / 10) as nat));
    assert(s[n - 1] == digit_char((t.second % 10) as nat));
    lemma_digit_char_value((t.month / 10) as nat);
    lemma_digit_char_value((t.month % 10) as nat);
    lemma_digit_char_value((t.day / 10) as nat);
    lemma_digit_char_value((t.day % 10) as nat);
    lemma_digit_char_value((t.hour / 10) as nat);
    lemma_digit_char_value((t.hour % 10) as nat);
    lemma_digit_char_value((t.minute / 10) as nat);
    lemma_digit_char_value((t.minute % 10) as nat);
    lemma_digit_char_value((t.second / 10) as nat);
    lemma_digit_char_value((t.second % 10) as nat);
    if t.year <= 9999 {
        lemma_four_digit_year(t.year as nat);
        assert(s[0] == decimal(t.year as nat)[0]);
        assert(s[1] == decimal(t.year as nat)[1]);
        assert(s[2] == decimal(t.year as nat)[2]);
        assert(s[3] == decimal(t.year as nat)[3]);
    } else {
        assert(s[0] == '+');
    }
}

fn push_two_digits(out: &mut Vec<char>, n: u32)
    requires
        n < 100,
    ensures
        final(out)@ == old(out)@ + two_digits(n as nat),
{
    if n < 10 {
        out.push('0');
        push_decimal(out, n as u64);
        assert(decimal(n as nat) == seq![digit_char(n as nat)]);
    } else {
        push_decimal(out, n as u64);
        assert(decimal(n as nat) == decimal((n / 10) as nat).push(digit_char((n % 10) as nat)));
        assert(decimal((n / 10) as nat) == seq![digit_char((n / 10) as nat)]);
    }
    assert(final(out)@ =~= old(out)@ + two_digits(n as nat)) by {
        assert(digit_char(0) == '0');
    }
}

/// The compact timestamp of a clock reading (see [`stamp_text`]).
pub fn format_timestamp(t: UtcTime) -> (stamp: String)
    requires
        t.valid(),
    ensures
        stamp@ == stamp_text(t),
        t.year <= 9999 ==> stamp@.len() == 14,
        t.year <= 9999 ==> digit_value(stamp@[0]) == t.year / 1000 && digit_value(stamp@[1]) == (
        t.year / 100) % 10 && digit_value(stamp@[2]) == (t.year / 10) % 10 && digit_value(stamp@[3])
            == t.year % 10,
        digit_value(stamp@[stamp@.len() - 10]) == t.month / 10,
        digit_value(stamp@[stamp@.len() - 9]) == t.month % 10,
        digit_value(stamp@[stamp@.len() - 8]) == t.day / 10,
        digit_value(stamp@[stamp@.len() - 7]) == t.day % 10,
        digit_value(stamp@[stamp@.len() - 6]) == t.hour / 10,
        digit_value(stamp@[stamp@.len() - 5]) == t.hour % 10,
        digit_value(stamp@[stamp@.len() - 4]) == t.minute / 10,
        digit_value(stamp@[stamp@.len() - 3]) == t.minute % 10,
        digit_value(stamp@[stamp@.len() - 2]) == t.second / 10,
        digit_value(stamp@[stamp@.len() - 1]) == t.second % 10,
{
    proof {
        law_stamp_fields(t);
    }
    let mut cs: Vec<char> = Vec::new();
    if t.year > 9999 {
        cs.push('+');
    }
    push_decimal(&mut cs, t.year as u64);
    let ghost y = cs@;
    assert(y =~= year_text(t.year as int));
    push_two_digits(&mut cs, t.month);
    push_two_digits(&mut cs, t.day);
    push_two_digits(&mut cs, t.hour);
    push_two_digits(&mut cs, t.minute);
    push_two_digits(&mut cs, t.second);
    assert(cs@ =~= stamp_text(t));
    string_from_chars(cs.as_slice())
}

/// The compact timestamp of the current UTC time, or nothing when the clock
/// cannot be read as one (see [`utc_now`]).
pub fn utc_stamp() -> (stamp: Option<String>)
    ensures
        stamp matches Some(s) ==> exists|t: UtcTime| t.valid() && s@ == #[trigger] stamp_text(t),
{
    match utc_now() {
        Some(now) => {
            let stamp = format_timestamp(now);
            assert(now.valid() && stamp@ == stamp_text(now));
            Some(stamp)
        },
        None => None,
    }
}

} // verus!
