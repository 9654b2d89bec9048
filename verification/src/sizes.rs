//! Human-readable byte counts, as shown in the size column and the queue.
//!
//! A count below 1 KiB is printed exactly; larger counts are printed in KB
//! or MB with one decimal and in GB with two, each rounded to nearest with
//! ties to even, the count being first taken to the nearest IEEE double as
//! a float conversion of the count would.
use vstd::prelude::*;
use vstd::arithmetic::div_mod::{lemma_div_denominator, lemma_fundamental_div_mod};
use crate::text::push_char;

verus! {

/// 2^53: below it every count is an exact double.
pub const TWO_POW_53: u64 = 9007199254740992;

/// 1024^3.
pub const GIB: u64 = 1073741824;

/// 1024^2.
pub const MIB: u64 = 1048576;

/// The decimal digit `d` (`d < 10`) as a character.
pub open spec fn digit_char(d: nat) -> char {
    (d + 48) as char
}

/// Decimal representation of `n`, without leading zeros.
pub open spec fn decimal_text(n: nat) -> Seq<char>
    decreases n,
{
    if n < 10 {
        seq![digit_char(n)]
    } else {
        decimal_text(n / 10).push(digit_char(n % 10))
    }
}

/// `n / d` rounded to the nearest integer, ties to the even one.
pub open spec fn round_half_even(n: nat, d: nat) -> nat
    recommends
        d > 0,
{
    let q = n / d;
    let r = n % d;
    if 2 * r > d || (2 * r == d && q % 2 == 1) {
        q + 1
    } else {
        q
    }
}

/// Spacing of the doubles around `b`: 1 below 2^53, doubling with each
/// binary order of magnitude above.
pub open spec fn ulp_of(b: nat) -> nat
    decreases b,
{
    if b < TWO_POW_53 {
        1
    } else {
        2 * ulp_of(b / 2)
    }
}

/// The double nearest to `b` (ties to even mantissa), as an integer.
pub open spec fn nearest_double(b: nat) -> nat {
    if b < TWO_POW_53 {
        b
    } else {
        round_half_even(b, ulp_of(b)) * ulp_of(b)
    }
}

/// `q / 10` with one decimal.
pub open spec fn one_decimal_text(q: nat) -> Seq<char> {
    decimal_text(q / 10).push('.').push(digit_char(q % 10))
}

/// `q / 100` with two decimals.
pub open spec fn two_decimals_text(q: nat) -> Seq<char> {
    decimal_text(q / 100).push('.').push(digit_char((q % 100) / 10)).push(digit_char(q % 10))
}

/// The label of an optional byte count.
pub open spec fn size_text(bytes: Option<u64>) -> Seq<char> {
    match bytes {
        None => Seq::empty(),
        Some(b) => if b < 1024 {
            decimal_text(b as nat) + seq![' ', 'B']
        } else if b < MIB {
            one_decimal_text(round_half_even((b * 10) as nat, 1024)) + seq![' ', 'K', 'B']
        } else if b < GIB {
            one_decimal_text(round_half_even((b * 10) as nat, MIB as nat)) + seq![' ', 'M', 'B']
        } else {
            two_decimals_text(round_half_even(nearest_double(b as nat) * 100, GIB as nat))
                + seq![' ', 'G', 'B']
        },
    }
}

fn digit(d: u128) -> (c: char)
    requires
        d < 10,
    ensures
        c == digit_char(d as nat),
{
    let b: u8 = d as u8;
    (b + 48) as char
}

fn push_decimal(s: &mut String, n: u128)
    ensures
        final(s)@ == old(s)@ + decimal_text(n as nat),
    decreases n,
{
    if n >= 10 {
        push_decimal(s, n / 10);
    }
    push_char(s, digit(n % 10));
    assert(final(s)@ =~= old(s)@ + decimal_text(n as nat));
}

fn round_half_even_exec(n: u128, d: u128) -> (q: u128)
    requires
        0 < d < 0x1_0000_0000_0000_0000_0000_0000,
        n < 0x1_0000_0000_0000_0000_0000_0000,
    ensures
        q == round_half_even(n as nat, d as nat),
{
    let q = n / d;
    let r = n % d;
    if 2 * r > d || (2 * r == d && q % 2 == 1) {
        q + 1
    } else {
        q
    }
}

fn nearest_double_exec(b: u64) -> (m: u128)
    ensures
        m == nearest_double(b as nat),
        m <= b + 8192,
{
    if b < TWO_POW_53 {
        return b as u128;
    }
    let mut t: u64 = b;
    let mut u: u64 = 1;
    while t >= TWO_POW_53
        invariant
            0 < u < 8192,
            t == b / u,
            ulp_of(b as nat) == u * ulp_of(t as nat),
        decreases t,
    {
        proof {
            lemma_fundamental_div_mod(b as int, u as int);
            assert(u * t <= b) by (nonlinear_arith)
                requires
                    t == b / u,
                    u > 0,
                    u * (b / u) + b % u == b,
                    b % u >= 0,
            ;
            assert(u < 4096) by (nonlinear_arith)
                requires
                    u * t <= b,
                    t >= TWO_POW_53,
                    b < 0x1_0000_0000_0000_0000u128,
            ;
            lemma_div_denominator(b as int, u as int, 2);
            assert(ulp_of(t as nat) == 2 * ulp_of((t / 2) as nat));
            assert(u * (2 * ulp_of((t / 2) as nat)) == (2 * u) * ulp_of((t / 2) as nat))
                by (nonlinear_arith);
        }
        t = t / 2;
        u = 2 * u;
    }
    assert(ulp_of(t as nat) == 1);
    assert(ulp_of(b as nat) == u) by (nonlinear_arith)
        requires
            ulp_of(b as nat) == u * ulp_of(t as nat),
            ulp_of(t as nat) == 1,
    ;
    let q = (b as u128) / (u as u128);
    let r = (b as u128) % (u as u128);
    let k = if 2 * r > u as u128 || (2 * r == u as u128 && q % 2 == 1) {
        q + 1
    } else {
        q
    };
    proof {
        lemma_fundamental_div_mod(b as int, u as int);
        assert(k * u <= b + u) by (nonlinear_arith)
            requires
                k <= q + 1,
                q == b / u,
                u * (b / u) + b % u == b,
                b % u >= 0,
                u > 0,
        ;
    }
    k * (u as u128)
}

/// Label for an optional byte count: empty when there is none.
pub fn format_size(bytes: Option<u64>) -> (r: String)
    ensures
        r@ == size_text(bytes),
{
    let mut s = String::new();
    match bytes {
        None => {},
        Some(b) => {
            if b < 1024 {
                push_decimal(&mut s, b as u128);
                push_char(&mut s, ' ');
                push_char(&mut s, 'B');
            } else if b < MIB {
                let q = round_half_even_exec(b as u128 * 10, 1024);
                push_decimal(&mut s, q / 10);
                push_char(&mut s, '.');
                push_char(&mut s, digit(q % 10));
                push_char(&mut s, ' ');
                push_char(&mut s, 'K');
                push_char(&mut s, 'B');
            } else if b < GIB {
                let q = round_half_even_exec(b as u128 * 10, MIB as u128);
                push_decimal(&mut s, q / 10);
                push_char(&mut s, '.');
                push_char(&mut s, digit(q % 10));
                push_char(&mut s, ' ');
                push_char(&mut s, 'M');
                push_char(&mut s, 'B');
            } else {
                let m = nearest_double_exec(b);
                let q = round_half_even_exec(m * 100, GIB as u128);
                push_decimal(&mut s, q / 100);
                push_char(&mut s, '.');
                push_char(&mut s, digit((q % 100) / 10));
                push_char(&mut s, digit(q % 10));
                push_char(&mut s, ' ');
                push_char(&mut s, 'G');
                push_char(&mut s, 'B');
            }
        },
    }
    assert(s@ =~= size_text(bytes));
    s
}

} // verus!
