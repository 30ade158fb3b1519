//! Formatting of timestamps for the log and saved results.

use vstd::prelude::*;

verus! {

pub const SECS_PER_MIN: u64 = 60;

pub const SECS_PER_HOUR: u64 = 3600;

pub const SECS_PER_DAY: u64 = 86400;

pub const DAYS_PER_MONTH: u64 = 30;

pub const DAYS_PER_YEAR: u64 = 365;

/// A point in time as the time elapsed since the Unix epoch (zero for earlier times):
/// whole seconds, and the whole milliseconds of the same span.
#[derive(Debug, Clone, Copy, PartialEq, Eq, Structural)]
pub struct Timestamp {
    pub secs: u64,
    pub millis: u128,
}

/// The char of a decimal digit.
pub open spec fn digit_char(d: nat) -> char {
    if d == 0 {
        '0'
    } else if d == 1 {
        '1'
    } else if d == 2 {
        '2'
    } else if d == 3 {
        '3'
    } else if d == 4 {
        '4'
    } else if d == 5 {
        '5'
    } else if d == 6 {
        '6'
    } else if d == 7 {
        '7'
    } else if d == 8 {
        '8'
    } else {
        '9'
    }
}

/// The decimal digits of `n`, without leading zeros ("0" for zero).
pub open spec fn decimal(n: nat) -> Seq<char>
    decreases n,
{
    if n < 10 {
        seq![digit_char(n)]
    } else {
        decimal(n / 10).push(digit_char(n % 10))
    }
}

/// `s` with zeros in front up to `width` chars.
pub open spec fn zero_pad(s: Seq<char>, width: nat) -> Seq<char> {
    if s.len() >= width {
        s
    } else {
        Seq::new((width - s.len()) as nat, |i: int| '0') + s
    }
}

/// `n` in decimal, zero-padded to `width` digits.
pub open spec fn padded(n: nat, width: nat) -> Seq<char> {
    zero_pad(decimal(n), width)
}

/// The calendar-like fields of a time: a year of 365 days, months of 30 days, counted from
/// 1970-01-01; then hour, minute, second of the day.
pub open spec fn timestamp_fields(secs: nat) -> (nat, nat, nat, nat, nat, nat) {
    let days = secs / 86400;
    let in_day = secs % 86400;
    let year = 1970 + days / 365;
    let rem = days % 365;
    (year, rem / 30 + 1, rem % 30 + 1, in_day / 3600, (in_day % 3600) / 60, in_day % 60)
}

/// "YYYY-MM-DDThh-mm-ss.mmm", each field zero-padded, the last being the milliseconds
/// within the second.
pub open spec fn timestamp_spec(t: Timestamp) -> Seq<char> {
    let (year, month, day, hour, min, sec) = timestamp_fields(t.secs as nat);
    padded(year, 4) + seq!['-'] + padded(month, 2) + seq!['-'] + padded(day, 2) + seq!['T']
        + padded(hour, 2) + seq!['-'] + padded(min, 2) + seq!['-'] + padded(sec, 2) + seq!['.']
        + padded((t.millis % 1000) as nat, 3)
}

/// Appends the char of digit `d`.
fn push_digit(s: &mut String, d: u128)
    requires
        d < 10,
    ensures
        final(s)@ == old(s)@.push(digit_char(d as nat)),
{
    let lit = if d == 0 {
        "0"
    } else if d == 1 {
        "1"
    } else if d == 2 {
        "2"
    } else if d == 3 {
        "3"
    } else if d == 4 {
        "4"
    } else if d == 5 {
        "5"
    } else if d == 6 {
        "6"
    } else if d == 7 {
        "7"
    } else if d == 8 {
        "8"
    } else {
        "9"
    };
    proof {
        reveal_strlit("0");
        reveal_strlit("1");
        reveal_strlit("2");
        reveal_strlit("3");
        reveal_strlit("4");
        reveal_strlit("5");
        reveal_strlit("6");
        reveal_strlit("7");
        reveal_strlit("8");
        reveal_strlit("9");
    }
    s.append(lit);
    assert(s@ =~= old(s)@.push(digit_char(d as nat)));
}

proof fn lemma_decimal_len(n: nat)
    ensures
        decimal(n).len() >= 1,
        n < 10 ==> decimal(n).len() == 1,
    decreases n,
{
    if n >= 10 {
        lemma_decimal_len(n / 10);
    }
}

/// Appends `n` in decimal.
pub(crate) fn push_decimal(s: &mut String, n: u128)
    ensures
        final(s)@ == old(s)@ + decimal(n as nat),
    decreases n,
{
    if n >= 10 {
        push_decimal(s, n / 10);
    }
    push_digit(s, n % 10);
    if n >= 10 {
        assert(decimal(n as nat) == decimal((n / 10) as nat).push(digit_char((n % 10) as nat)));
    }
    assert(s@ =~= old(s)@ + decimal(n as nat));
}

/// The number of decimal digits of `n`.
fn decimal_len(n: u128) -> (r: u128)
    ensures
        r == decimal(n as nat).len(),
        r <= (if n > 1 { n } else { 1 }),
    decreases n,
{
    if n >= 10 {
        let k = decimal_len(n / 10);
        assert(decimal(n as nat).len() == decimal((n / 10) as nat).len() + 1);
        k + 1
    } else {
        1
    }
}

/// Appends `n` in decimal, zero-padded to `width` digits.
fn push_padded(s: &mut String, n: u128, width: usize)
    ensures
        final(s)@ == old(s)@ + padded(n as nat, width as nat),
{
    let len = decimal_len(n);
    let width = width as u128;
    let ghost start = s@;
    let mut i: u128 = len;
    proof {
        reveal_strlit("0");
    }
    while i < width
        invariant
            len <= i,
            len < width ==> i <= width,
            len >= width ==> i == len,
            len == decimal(n as nat).len(),
            s@ == start + Seq::new((i - len) as nat, |j: int| '0'),
        decreases width - i,
    {
        proof {
            reveal_strlit("0");
        }
        s.append("0");
        assert(s@ =~= start + Seq::new((i + 1 - len) as nat, |j: int| '0'));
        i += 1;
    }
    let ghost zeros = s@.subrange(start.len() as int, s@.len() as int);
    assert(s@ =~= start + zeros);
    push_decimal(s, n);
    if len >= width {
        assert(i == len);
        assert(zeros =~= Seq::<char>::empty());
        assert(s@ =~= start + padded(n as nat, width as nat));
    } else {
        assert(zeros =~= Seq::new((width - len) as nat, |j: int| '0'));
        assert(s@ =~= start + padded(n as nat, width as nat));
    }
}

/// Formats the given time as y-m-dThh-mm-ss.mmm.
pub fn format_timestamp(time: Timestamp) -> (r: String)
    ensures
        r@ == timestamp_spec(time),
{
    let secs = time.secs;
    let ms = time.millis;
    let days_since_epoch = secs / SECS_PER_DAY;
    let secs_in_day = secs % SECS_PER_DAY;
    let years_since_epoch = days_since_epoch / DAYS_PER_YEAR;
    let remaining_days = days_since_epoch % DAYS_PER_YEAR;
    let month = (remaining_days / DAYS_PER_MONTH) + 1;
    let day = (remaining_days % DAYS_PER_MONTH) + 1;
    let year = 1970 + years_since_epoch;
    let hour = secs_in_day / SECS_PER_HOUR;
    let min = (secs_in_day % SECS_PER_HOUR) / SECS_PER_MIN;
    let sec = secs_in_day % SECS_PER_MIN;
    proof {
        reveal_strlit("-");
        reveal_strlit("T");
        reveal_strlit(".");
    }
    let mut r = String::new();
    push_padded(&mut r, year as u128, 4);
    r.append("-");
    push_padded(&mut r, month as u128, 2);
    r.append("-");
    push_padded(&mut r, day as u128, 2);
    r.append("T");
    push_padded(&mut r, hour as u128, 2);
    r.append("-");
    push_padded(&mut r, min as u128, 2);
    r.append("-");
    push_padded(&mut r, sec as u128, 2);
    r.append(".");
    push_padded(&mut r, ms % 1000, 3);
    assert(r@ =~= timestamp_spec(time));
    r
}

} // verus!
