use vstd::prelude::*;
use vstd::string::*;

use crate::interval::Interval;

verus! {

/// Nanoseconds in one millisecond.
pub const NANOS_PER_MILLI: u32 = 1_000_000;

/// Nanoseconds in one microsecond.
pub const NANOS_PER_MICRO: u32 = 1_000;

/// `n / d` rounded to the nearest integer, halves going up (away from zero).
pub open spec fn rounded(n: nat, d: nat) -> nat
    recommends
        d > 0,
{
    (n + d / 2) / d
}

/// The decimal digit `d` as a character.
pub open spec fn digit_char(d: nat) -> char
    recommends
        d < 10,
{
    seq!['0', '1', '2', '3', '4', '5', '6', '7', '8', '9'][d as int]
}

/// The decimal digits of `n`, most significant first, without leading zeros.
pub open spec fn digits(n: nat) -> Seq<char>
    decreases n,
{
    if n < 10 {
        seq![digit_char(n)]
    } else {
        digits(n / 10) + seq![digit_char(n % 10)]
    }
}

/// The digits after the decimal point of `f` thousandths (`0 < f < 1000`),
/// with trailing zeros dropped.
pub open spec fn fraction_digits(f: nat) -> Seq<char> {
    if f % 100 == 0 {
        seq![digit_char(f / 100)]
    } else if f % 10 == 0 {
        seq![digit_char(f / 100), digit_char(f / 10 % 10)]
    } else {
        seq![digit_char(f / 100), digit_char(f / 10 % 10), digit_char(f % 10)]
    }
}

/// The number `t / 1000` written with at most three decimals: no decimal
/// point when it is integral, and no trailing zeros otherwise.
pub open spec fn thousandths_text(t: nat) -> Seq<char> {
    if t % 1000 == 0 {
        digits(t / 1000)
    } else {
        digits(t / 1000) + seq!['.'] + fraction_digits(t % 1000)
    }
}

/// The text an interval is shown as; `full` selects the long unit names.
///
/// Whole seconds present: seconds. Otherwise over a millisecond:
/// milliseconds. Otherwise over a microsecond: microseconds. The first three
/// are rounded to thousandths of their unit. Otherwise the nanoseconds as
/// they are.
pub open spec fn formatted(i: Interval, full: bool) -> Seq<char> {
    if i.secs > 0 {
        thousandths_text(rounded(i.total_nanos(), NANOS_PER_MILLI as nat)) + (if full {
            " seconds"@
        } else {
            "s"@
        })
    } else if i.nanos > NANOS_PER_MILLI {
        thousandths_text(rounded(i.nanos as nat, NANOS_PER_MICRO as nat)) + (if full {
            " milliseconds"@
        } else {
            "ms"@
        })
    } else if i.nanos > NANOS_PER_MICRO {
        thousandths_text(i.nanos as nat) + (if full {
            " microseconds"@
        } else {
            "µs"@
        })
    } else {
        digits(i.nanos as nat) + (if full {
            " nanoseconds"@
        } else {
            "ns"@
        })
    }
}

/// Rounding is idempotent: a count that is already a whole number of units
/// `d` rounds to exactly that number, so rounding a rounded value again
/// changes nothing.
pub proof fn lemma_round_idempotent(n: nat, d: nat)
    requires
        d > 0,
    ensures
        forall|k: nat| #[trigger] rounded(k * d, d) == k,
        rounded(rounded(n, d) * d, d) == rounded(n, d),
{
    assert forall|k: nat| #[trigger] rounded(k * d, d) == k by {
        assert((k * d + d / 2) / d == k) by (nonlinear_arith)
            requires
                d > 0,
        ;
    }
    assert(rounded(rounded(n, d) * d, d) == rounded(n, d));
}

/// The rounded count of thousandths of a second never decreases when
/// either the seconds or the nanoseconds of an interval grow.
pub proof fn lemma_rounded_secs_monotone(a: Interval, b: Interval)
    requires
        a.secs <= b.secs,
        a.nanos <= b.nanos,
    ensures
        a.total_nanos() <= b.total_nanos(),
        rounded(a.total_nanos(), NANOS_PER_MILLI as nat) <= rounded(
            b.total_nanos(),
            NANOS_PER_MILLI as nat,
        ),
{
    assert(a.total_nanos() <= b.total_nanos()) by (nonlinear_arith)
        requires
            a.secs <= b.secs,
            a.nanos <= b.nanos,
    ;
    let x = a.total_nanos() + NANOS_PER_MILLI as nat / 2;
    let y = b.total_nanos() + NANOS_PER_MILLI as nat / 2;
    assert(x / (NANOS_PER_MILLI as nat) <= y / (NANOS_PER_MILLI as nat)) by (nonlinear_arith)
        requires
            x <= y,
    ;
}

/// A value with no thousandths is written without a decimal point or
/// trailing zeros: `k` thousand thousandths read as the digits of `k`.
pub proof fn lemma_integral_drops_fraction(k: nat)
    ensures
        thousandths_text(k * 1000) == digits(k),
{
    assert((k * 1000) % 1000 == 0 && (k * 1000) / 1000 == k) by (nonlinear_arith);
}

/// Divides `n` by `d`, rounding to the nearest integer with halves going up.
pub fn round_div(n: u128, d: u128) -> (r: u128)
    requires
        d > 0,
    ensures
        r == rounded(n as nat, d as nat),
{
    let q = n / d;
    let m = n % d;
    proof {
        let h: int = d as int / 2;
        assert(n == q * d + m && m < d) by (nonlinear_arith)
            requires
                q == n / d,
                m == n % d,
                d > 0,
        ;
        assert(m >= d - h ==> (n + h) / (d as int) == q + 1) by (nonlinear_arith)
            requires
                n == q * d + m,
                m < d,
                h == d / 2,
                d > 0,
        ;
        assert(m < d - h ==> (n + h) / (d as int) == q) by (nonlinear_arith)
            requires
                n == q * d + m,
                m < d,
                h == d / 2,
                d > 0,
        ;
        assert(m >= d - h ==> q < u128::MAX) by (nonlinear_arith)
            requires
                n == q * d + m,
                m < d,
                h == d / 2,
                d > 0,
                n <= u128::MAX,
        ;
    }
    if m >= d - d / 2 {
        q + 1
    } else {
        q
    }
}

/// The one-character text of the digit `d`.
fn digit_str(d: u128) -> (r: &'static str)
    requires
        d < 10,
    ensures
        r@ == seq![digit_char(d as nat)],
{
    proof {
        reveal_strlit("0");
        reveal_strlit("1");
        reveal_strlit("2");
        reveal_strlit("3");
        reveal_strlit("4");
        reveal_strlit("5");
        reveal_strlit("6");
        reveal_strlit("7");
        reveal_strlit("8");
        reveal_strlit("9");
    }
    match d {
        0 => "0",
        1 => "1",
        2 => "2",
        3 => "3",
        4 => "4",
        5 => "5",
        6 => "6",
        7 => "7",
        8 => "8",
        _ => "9",
    }
}

/// Appends the decimal digits of `n`.
fn push_digits(s: &mut String, n: u128)
    ensures
        final(s)@ == old(s)@ + digits(n as nat),
    decreases n,
{
    if n >= 10 {
        push_digits(s, n / 10);
    }
    s.append(digit_str(n % 10));
    proof {
        assert(final(s)@ =~= old(s)@ + digits(n as nat));
    }
}

/// Appends `t / 1000` with at most three decimals and no trailing zeros.
fn push_thousandths(s: &mut String, t: u128)
    ensures
        final(s)@ == old(s)@ + thousandths_text(t as nat),
{
    push_digits(s, t / 1000);
    let f = t % 1000;
    if f != 0 {
        proof {
            reveal_strlit(".");
        }
        s.append(".");
        s.append(digit_str(f / 100));
        if f % 100 != 0 {
            s.append(digit_str(f / 10 % 10));
            if f % 10 != 0 {
                s.append(digit_str(f % 10));
            }
        }
    }
    proof {
        assert(final(s)@ =~= old(s)@ + thousandths_text(t as nat));
    }
}

/// An interval to be shown as text with an automatically chosen unit.
#[derive(Clone, Copy, Debug)]
pub struct TimeFormat(pub Interval);

impl TimeFormat {
    /// The interval as text; `alternate` selects the full unit names
    /// (`1.234 milliseconds`) over the abbreviated ones (`1.234ms`).
    pub fn fmt(&self, alternate: bool) -> (r: String)
        ensures
            r@ == formatted(self.0, alternate),
    {
        let dur = self.0;
        let mut s = String::new();
        if dur.secs > 0 {
            let total = dur.secs as u128 * 1_000_000_000 + dur.nanos as u128;
            push_thousandths(&mut s, round_div(total, NANOS_PER_MILLI as u128));
            if !alternate {
                s.append("s");
            } else {
                s.append(" seconds");
            }
        } else if dur.nanos > NANOS_PER_MILLI {
            push_thousandths(&mut s, round_div(dur.nanos as u128, NANOS_PER_MICRO as u128));
            if !alternate {
                s.append("ms");
            } else {
                s.append(" milliseconds");
            }
        } else if dur.nanos > NANOS_PER_MICRO {
            push_thousandths(&mut s, dur.nanos as u128);
            if !alternate {
                s.append("µs");
            } else {
                s.append(" microseconds");
            }
        } else {
            push_digits(&mut s, dur.nanos as u128);
            if !alternate {
                s.append("ns");
            } else {
                s.append(" nanoseconds");
            }
        }
        proof {
            assert(s@ =~= formatted(self.0, alternate));
        }
        s
    }
}

} // verus!
