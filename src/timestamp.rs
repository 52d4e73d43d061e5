use chrono::{Datelike, Timelike};
use vstd::prelude::*;

verus! {

/// The decimal digit for `d` (taken modulo nothing: callers pass `0..=9`).
pub open spec fn digit(d: int) -> char {
    if d <= 0 {
        '0'
    } else if d == 1 {
        '1'
    } else if d == 2 {
        '2'
    } else if d == 3 {
        '3'
    } else if d == 4 {
        '4'
    } else if d == 5 {
        '5'
    } else if d == 6 {
        '6'
    } else if d == 7 {
        '7'
    } else if d == 8 {
        '8'
    } else {
        '9'
    }
}

pub open spec fn is_digit(c: char) -> bool {
    '0' <= c && c <= '9'
}

/// `n` written with exactly two digits, zero-padded.
pub open spec fn two_digits(n: int) -> Seq<char> {
    seq![digit(n / 10), digit(n % 10)]
}

/// `n` written with exactly four digits, zero-padded.
pub open spec fn four_digits(n: int) -> Seq<char> {
    seq![digit(n / 1000), digit((n / 100) % 10), digit((n / 10) % 10), digit(n % 10)]
}

/// `n` in decimal, without padding.
pub open spec fn decimal(n: nat) -> Seq<char>
    decreases n,
{
    if n < 10 {
        seq![digit(n as int)]
    } else {
        decimal(n / 10).push(digit((n % 10) as int))
    }
}

/// A year's magnitude: four digits, or more where four do not suffice.
pub open spec fn magnitude_text(n: nat) -> Seq<char> {
    if n < 10000 {
        four_digits(n as int)
    } else {
        decimal(n)
    }
}

/// A year: its magnitude, preceded by `-` before year zero and by `+` after
/// year 9999.
pub open spec fn year_text(y: int) -> Seq<char> {
    if y < 0 {
        seq!['-'] + magnitude_text((-y) as nat)
    } else if y > 9999 {
        seq!['+'] + magnitude_text(y as nat)
    } else {
        magnitude_text(y as nat)
    }
}

/// Text of the shape `DDDD-DD-DD DD:DD:DD`, where each `D` is a decimal digit.
pub open spec fn is_stamp_shape(s: Seq<char>) -> bool {
    &&& s.len() == 19
    &&& s[4] == '-' && s[7] == '-' && s[10] == ' ' && s[13] == ':' && s[16] == ':'
    &&& forall|i: int|
        0 <= i < 19 && i != 4 && i != 7 && i != 10 && i != 13 && i != 16 ==> is_digit(
            #[trigger] s[i],
        )
}

/// A local calendar date and wall-clock time, to the second.
#[derive(Debug, Clone, Copy, PartialEq, Eq, Structural)]
pub struct Timestamp {
    pub year: i32,
    pub month: u32,
    pub day: u32,
    pub hour: u32,
    pub minute: u32,
    pub second: u32,
}

impl Timestamp {
    /// Every field lies in its calendar range.
    pub open spec fn wf(&self) -> bool {
        &&& 1 <= self.month <= 12
        &&& 1 <= self.day <= 31
        &&& self.hour <= 23
        &&& self.minute <= 59
        &&& self.second <= 59
    }

    /// The stamp `YYYY-MM-DD HH:MM:SS`.
    pub open spec fn text(&self) -> Seq<char> {
        year_text(self.year as int) + seq!['-'] + two_digits(self.month as int) + seq!['-']
            + two_digits(self.day as int) + seq![' '] + two_digits(self.hour as int) + seq![':']
            + two_digits(self.minute as int) + seq![':'] + two_digits(self.second as int)
    }

    /// A timestamp from its fields, or `None` where one is out of its range.
    pub fn new(year: i32, month: u32, day: u32, hour: u32, minute: u32, second: u32) -> (r:
        Option<Timestamp>)
        ensures
            r is Some <==> (Timestamp { year, month, day, hour, minute, second }).wf(),
            r is Some ==> r->0 == (Timestamp { year, month, day, hour, minute, second }),
    {
        if 1 <= month && month <= 12 && 1 <= day && day <= 31 && hour <= 23 && minute <= 59
            && second <= 59 {
            Some(Timestamp { year, month, day, hour, minute, second })
        } else {
            None
        }
    }

    /// Writes the stamp `YYYY-MM-DD HH:MM:SS`.
    pub fn format(&self) -> (r: String)
        requires
            self.wf(),
        ensures
            r@ == self.text(),
    {
        let mut s = year_string(self.year);
        s.append("-");
        push_two_digits(&mut s, self.month);
        s.append("-");
        push_two_digits(&mut s, self.day);
        s.append(" ");
        push_two_digits(&mut s, self.hour);
        s.append(":");
        push_two_digits(&mut s, self.minute);
        s.append(":");
        push_two_digits(&mut s, self.second);
        proof {
            reveal_strlit("-");
            reveal_strlit(" ");
            reveal_strlit(":");
            assert("-"@ =~= seq!['-']);
            assert(" "@ =~= seq![' ']);
            assert(":"@ =~= seq![':']);
        }
        s
    }
}

/// Relies on chrono's `Local::now` for the current local date and time, and on
/// its `Datelike` and `Timelike` accessors, whose documented ranges are: month
/// 1 to 12, day 1 to 31, hour 0 to 23, minute and second 0 to 59.
#[verifier::external_body]
pub fn local_now() -> (r: Timestamp)
    ensures
        r.wf(),
{
    let now = chrono::Local::now();
    Timestamp {
        year: now.year(),
        month: now.month(),
        day: now.day(),
        hour: now.hour(),
        minute: now.minute(),
        second: now.second(),
    }
}

fn digit_str(d: u32) -> (r: &'static str)
    requires
        d < 10,
    ensures
        r@ == seq![digit(d as int)],
{
    if d == 0 {
        proof { reveal_strlit("0"); assert("0"@ =~= seq!['0']); }
        "0"
    } else if d == 1 {
        proof { reveal_strlit("1"); assert("1"@ =~= seq!['1']); }
        "1"
    } else if d == 2 {
        proof { reveal_strlit("2"); assert("2"@ =~= seq!['2']); }
        "2"
    } else if d == 3 {
        proof { reveal_strlit("3"); assert("3"@ =~= seq!['3']); }
        "3"
    } else if d == 4 {
        proof { reveal_strlit("4"); assert("4"@ =~= seq!['4']); }
        "4"
    } else if d == 5 {
        proof { reveal_strlit("5"); assert("5"@ =~= seq!['5']); }
        "5"
    } else if d == 6 {
        proof { reveal_strlit("6"); assert("6"@ =~= seq!['6']); }
        "6"
    } else if d == 7 {
        proof { reveal_strlit("7"); assert("7"@ =~= seq!['7']); }
        "7"
    } else if d == 8 {
        proof { reveal_strlit("8"); assert("8"@ =~= seq!['8']); }
        "8"
    } else {
        proof { reveal_strlit("9"); assert("9"@ =~= seq!['9']); }
        "9"
    }
}

fn push_two_digits(s: &mut String, n: u32)
    requires
        n < 100,
    ensures
        final(s)@ == old(s)@ + two_digits(n as int),
{
    s.append(digit_str(n / 10));
    s.append(digit_str(n % 10));
    assert(final(s)@ =~= old(s)@ + two_digits(n as int));
}

fn decimal_string(n: u32) -> (r: String)
    ensures
        r@ == decimal(n as nat),
    decreases n,
{
    if n < 10 {
        String::from_str(digit_str(n))
    } else {
        let mut s = decimal_string(n / 10);
        s.append(digit_str(n % 10));
        s
    }
}

fn magnitude_string(n: u32) -> (r: String)
    ensures
        r@ == magnitude_text(n as nat),
{
    if n < 10000 {
        let mut s = String::from_str(digit_str(n / 1000));
        s.append(digit_str((n / 100) % 10));
        s.append(digit_str((n / 10) % 10));
        s.append(digit_str(n % 10));
        assert(s@ =~= four_digits(n as int));
        s
    } else {
        decimal_string(n)
    }
}

fn year_string(y: i32) -> (r: String)
    ensures
        r@ == year_text(y as int),
{
    if y < 0 {
        let m: u32 = (-(y as i64)) as u32;
        let mut s = String::from_str("-");
        let digits = magnitude_string(m);
        s.append(digits.as_str());
        proof {
            reveal_strlit("-");
            assert("-"@ =~= seq!['-']);
        }
        s
    } else if y > 9999 {
        let mut s = String::from_str("+");
        let digits = magnitude_string(y as u32);
        s.append(digits.as_str());
        proof {
            reveal_strlit("+");
            assert("+"@ =~= seq!['+']);
        }
        s
    } else {
        magnitude_string(y as u32)
    }
}

/// A stamp of a year from 0 to 9999 has the shape `DDDD-DD-DD DD:DD:DD`.
pub proof fn lemma_stamp_shape(t: Timestamp)
    requires
        t.wf(),
        0 <= t.year <= 9999,
    ensures
        is_stamp_shape(t.text()),
{
    let s = t.text();
    assert(s.len() == 19);
    assert forall|i: int|
        0 <= i < 19 && i != 4 && i != 7 && i != 10 && i != 13 && i != 16 implies is_digit(
        #[trigger] s[i],
    ) by {
        assert(forall|d: int| is_digit(#[trigger] digit(d)));
    }
}

} // verus!
