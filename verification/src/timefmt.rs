//! Human-scaled rendering of elapsed times.
//!
//! A time is a whole number of picoseconds. It is shown in the largest of
//! seconds, milliseconds, microseconds and nanoseconds in which it is at
//! least one, rounded to three decimals (ties to even), without trailing
//! zeros.

use vstd::prelude::*;

verus! {

/// The unit a time is shown in.
#[derive(Clone, Copy, Debug, PartialEq, Eq, Structural)]
pub enum TimeUnit {
    Seconds,
    Milliseconds,
    Microseconds,
    Nanoseconds,
}

pub const PICOS_PER_SECOND: u64 = 1_000_000_000_000;

pub const PICOS_PER_MILLISECOND: u64 = 1_000_000_000;

pub const PICOS_PER_MICROSECOND: u64 = 1_000_000;

/// The largest unit in which `picos` is at least one; nanoseconds below that.
pub open spec fn unit_for(picos: nat) -> TimeUnit {
    if picos >= PICOS_PER_SECOND {
        TimeUnit::Seconds
    } else if picos >= PICOS_PER_MILLISECOND {
        TimeUnit::Milliseconds
    } else if picos >= PICOS_PER_MICROSECOND {
        TimeUnit::Microseconds
    } else {
        TimeUnit::Nanoseconds
    }
}

/// The number of picoseconds in a thousandth of the unit.
pub open spec fn picos_per_thousandth(unit: TimeUnit) -> nat {
    match unit {
        TimeUnit::Seconds => 1_000_000_000,
        TimeUnit::Milliseconds => 1_000_000,
        TimeUnit::Microseconds => 1_000,
        TimeUnit::Nanoseconds => 1,
    }
}

/// The letters that stand for the unit.
pub open spec fn unit_suffix(unit: TimeUnit) -> Seq<char> {
    match unit {
        TimeUnit::Seconds => "s"@,
        TimeUnit::Milliseconds => "ms"@,
        TimeUnit::Microseconds => "μs"@,
        TimeUnit::Nanoseconds => "ns"@,
    }
}

/// `n / d` rounded to the nearest whole number, a tie going to the even one.
pub open spec fn round_half_even(n: nat, d: nat) -> nat
    recommends
        d > 0,
{
    let q = n / d;
    let twice = 2 * (n % d);
    if twice < d || (twice == d && q % 2 == 0) {
        q
    } else {
        q + 1
    }
}

/// The decimal digit for `d`.
pub open spec fn digit(d: nat) -> char
    recommends
        d < 10,
{
    if d == 0 {
        '0'
    } else if d == 1 {
        '1'
    } else if d == 2 {
        '2'
    } else if d == 3 {
        '3'
    } else if d == 4 {
        '4'
    } else if d == 5 {
        '5'
    } else if d == 6 {
        '6'
    } else if d == 7 {
        '7'
    } else if d == 8 {
        '8'
    } else {
        '9'
    }
}

/// `n` in decimal, without leading zeros.
pub open spec fn decimal(n: nat) -> Seq<char>
    decreases n,
{
    if n < 10 {
        seq![digit(n)]
    } else {
        decimal(n / 10).push(digit(n % 10))
    }
}

/// The fractional part for `m` thousandths: nothing for zero, else a point
/// and up to three digits, of which the last is not a zero.
pub open spec fn fraction(m: nat) -> Seq<char>
    recommends
        m < 1000,
{
    if m == 0 {
        seq![]
    } else if m % 100 == 0 {
        seq!['.', digit(m / 100)]
    } else if m % 10 == 0 {
        seq!['.', digit(m / 100), digit((m / 10) % 10)]
    } else {
        seq!['.', digit(m / 100), digit((m / 10) % 10), digit(m % 10)]
    }
}

/// The text for a time of `picos` picoseconds.
pub open spec fn format_time(picos: nat) -> Seq<char> {
    let unit = unit_for(picos);
    let m = round_half_even(picos, picos_per_thousandth(unit));
    decimal(m / 1000) + fraction(m % 1000) + unit_suffix(unit)
}

fn digit_str(d: u64) -> (r: &'static str)
    requires
        d < 10,
    ensures
        r@ == seq![digit(d as nat)],
{
    proof {
        reveal_strlit("0");
        reveal_strlit("1");
        reveal_strlit("2");
        reveal_strlit("3");
        reveal_strlit("4");
        reveal_strlit("5");
        reveal_strlit("6");
        reveal_strlit("7");
        reveal_strlit("8");
        reveal_strlit("9");
    }
    let r = if d == 0 {
        "0"
    } else if d == 1 {
        "1"
    } else if d == 2 {
        "2"
    } else if d == 3 {
        "3"
    } else if d == 4 {
        "4"
    } else if d == 5 {
        "5"
    } else if d == 6 {
        "6"
    } else if d == 7 {
        "7"
    } else if d == 8 {
        "8"
    } else {
        "9"
    };
    assert(r@ =~= seq![digit(d as nat)]);
    r
}

/// Writes `n` in decimal.
pub fn decimal_string(n: u64) -> (r: String)
    ensures
        r@ == decimal(n as nat),
    decreases n,
{
    if n < 10 {
        digit_str(n).to_owned()
    } else {
        let mut s = decimal_string(n / 10);
        s.append(digit_str(n % 10));
        assert(s@ =~= decimal((n / 10) as nat).push(digit((n % 10) as nat)));
        s
    }
}

fn push_fraction(out: &mut String, m: u64)
    requires
        m < 1000,
    ensures
        final(out)@ == old(out)@ + fraction(m as nat),
{
    let ghost before = out@;
    if m == 0 {
        assert(out@ =~= before + fraction(m as nat));
        return;
    }
    proof {
        reveal_strlit(".");
    }
    out.append(".");
    out.append(digit_str(m / 100));
    if m % 100 != 0 {
        out.append(digit_str((m / 10) % 10));
        if m % 10 != 0 {
            out.append(digit_str(m % 10));
        }
    }
    assert(out@ =~= before + fraction(m as nat));
}

/// Divides, rounding to the nearest whole number and a tie to the even one.
fn divide_rounding(n: u64, d: u64) -> (q: u64)
    requires
        d > 0,
        d <= 1_000_000_000,
    ensures
        q == round_half_even(n as nat, d as nat),
{
    let q = n / d;
    let rest = n % d;
    let twice = 2 * rest;
    if twice < d || (twice == d && q % 2 == 0) {
        q
    } else {
        assert(q < u64::MAX) by (nonlinear_arith)
            requires
                q == n / d,
                n % d > 0,
                d > 0,
                n <= u64::MAX,
        ;
        q + 1
    }
}

/// Shows a time of `picos` picoseconds in the unit that suits it.
pub fn format_time_human_readable(picos: u64) -> (text: String)
    ensures
        text@ == format_time(picos as nat),
{
    let m: u64;
    let suffix: &str;
    if picos >= PICOS_PER_SECOND {
        m = divide_rounding(picos, 1_000_000_000);
        suffix = "s";
    } else if picos >= PICOS_PER_MILLISECOND {
        m = divide_rounding(picos, 1_000_000);
        suffix = "ms";
    } else if picos >= PICOS_PER_MICROSECOND {
        m = divide_rounding(picos, 1_000);
        suffix = "μs";
    } else {
        m = divide_rounding(picos, 1);
        suffix = "ns";
    }
    let mut text = decimal_string(m / 1000);
    push_fraction(&mut text, m % 1000);
    text.append(suffix);
    text
}

} // verus!
