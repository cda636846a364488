//! Human-readable byte sizes ("2.0 KB", "5.00 MB").
//!
//! The number shown is the byte count converted to a double, divided by
//! 1024 once per step up the unit ladder B, KB, MB, GB, TB (at most four
//! steps, and only while the value is at least 1024), and rounded to a
//! fixed number of decimals, ties to even.  Everything is computed exactly
//! in integers.

use vstd::prelude::*;
use crate::text::push_char;

verus! {

/// `base` raised to `e`.
pub open spec fn power(base: nat, e: nat) -> nat
    decreases e,
{
    if e == 0 {
        1
    } else {
        base * power(base, (e - 1) as nat)
    }
}

/// `n / d` rounded to the nearest integer, ties to the even neighbour.
pub open spec fn round_half_even(n: nat, d: nat) -> nat
    recommends
        d > 0,
{
    let q = n / d;
    let r = n % d;
    if 2 * r > d || (2 * r == d && q % 2 == 1) {
        q + 1
    } else {
        q
    }
}

/// 2^53: below it every integer is exactly a double.
pub open spec fn exact_limit() -> nat {
    0x20_0000_0000_0000
}

/// How many low bits a double drops from `b`.
pub open spec fn dropped_bits(b: nat) -> nat
    decreases b,
{
    if b < exact_limit() {
        0
    } else {
        1 + dropped_bits(b / 2)
    }
}

/// The value of `b as f64`: `b` rounded to 53 significant bits, ties to even.
pub open spec fn as_double(b: nat) -> nat {
    let step = power(2, dropped_bits(b));
    round_half_even(b, step) * step
}

/// The unit index reached from `k` by dividing by 1024 while the quotient
/// is at least 1024, up to index 4.
pub open spec fn unit_from(v: nat, k: nat) -> nat
    decreases 4 - k,
{
    if k < 4 && v >= power(1024, k + 1) {
        unit_from(v, k + 1)
    } else {
        k
    }
}

/// Index into B, KB, MB, GB, TB for the value `v`.
pub open spec fn unit_index(v: nat) -> nat {
    unit_from(v, 0)
}

/// The name of unit `i`.
pub open spec fn unit_name(i: nat) -> Seq<char> {
    if i == 0 {
        seq!['B']
    } else if i == 1 {
        seq!['K', 'B']
    } else if i == 2 {
        seq!['M', 'B']
    } else if i == 3 {
        seq!['G', 'B']
    } else {
        seq!['T', 'B']
    }
}

/// The decimal digit for `d < 10`.
pub open spec fn digit(d: nat) -> char {
    if d == 0 {
        '0'
    } else if d == 1 {
        '1'
    } else if d == 2 {
        '2'
    } else if d == 3 {
        '3'
    } else if d == 4 {
        '4'
    } else if d == 5 {
        '5'
    } else if d == 6 {
        '6'
    } else if d == 7 {
        '7'
    } else if d == 8 {
        '8'
    } else {
        '9'
    }
}

/// Decimal notation of `n`, without leading zeros.
pub open spec fn decimal(n: nat) -> Seq<char>
    decreases n,
{
    if n < 10 {
        seq![digit(n)]
    } else {
        decimal(n / 10).push(digit(n % 10))
    }
}

/// The last `width` decimal digits of `n`, zero-padded.
pub open spec fn padded_digits(n: nat, width: nat) -> Seq<char>
    decreases width,
{
    if width == 0 {
        Seq::empty()
    } else {
        padded_digits(n / 10, (width - 1) as nat).push(digit(n % 10))
    }
}

/// `b` in its unit, times 10^decimals, rounded ties to even.
pub open spec fn scaled_amount(b: nat, decimals: nat) -> nat {
    let v = as_double(b);
    round_half_even(v * power(10, decimals), power(1024, unit_index(v)))
}

/// The text for `b` bytes with `decimals` digits after the point.
pub open spec fn spec_format_size(b: nat, decimals: nat) -> Seq<char> {
    let s = scaled_amount(b, decimals);
    let p = power(10, decimals);
    decimal(s / p) + seq!['.'] + padded_digits(s % p, decimals) + seq![' ']
        + unit_name(unit_index(as_double(b)))
}

fn digit_char(d: u128) -> (c: char)
    requires
        d < 10,
    ensures
        c == digit(d as nat),
{
    if d == 0 {
        '0'
    } else if d == 1 {
        '1'
    } else if d == 2 {
        '2'
    } else if d == 3 {
        '3'
    } else if d == 4 {
        '4'
    } else if d == 5 {
        '5'
    } else if d == 6 {
        '6'
    } else if d == 7 {
        '7'
    } else if d == 8 {
        '8'
    } else {
        '9'
    }
}

/// Appends the decimal notation of `n`.
pub(crate) fn push_decimal(s: &mut String, n: u128)
    ensures
        final(s)@ == old(s)@ + decimal(n as nat),
    decreases n,
{
    if n >= 10 {
        push_decimal(s, n / 10);
    }
    push_char(s, digit_char(n % 10));
    assert(final(s)@ =~= old(s)@ + decimal(n as nat));
}

fn push_padded(s: &mut String, n: u128, width: u32)
    ensures
        final(s)@ == old(s)@ + padded_digits(n as nat, width as nat),
    decreases width,
{
    if width > 0 {
        push_padded(s, n / 10, width - 1);
        push_char(s, digit_char(n % 10));
    }
    assert(final(s)@ =~= old(s)@ + padded_digits(n as nat, width as nat));
}

fn push_unit(s: &mut String, i: u32)
    requires
        i <= 4,
    ensures
        final(s)@ == old(s)@ + unit_name(i as nat),
{
    if i == 0 {
        push_char(s, 'B');
    } else {
        if i == 1 {
            push_char(s, 'K');
        } else if i == 2 {
            push_char(s, 'M');
        } else if i == 3 {
            push_char(s, 'G');
        } else {
            push_char(s, 'T');
        }
        push_char(s, 'B');
    }
    assert(final(s)@ =~= old(s)@ + unit_name(i as nat));
}

fn rounded_quotient(n: u128, d: u128) -> (r: u128)
    requires
        0 < d < 0x1_0000_0000_0000_0000_0000_0000,
        n < 0x1_0000_0000_0000_0000_0000_0000,
    ensures
        r == round_half_even(n as nat, d as nat),
{
    let q = n / d;
    let rem = n % d;
    assert(q <= n) by (nonlinear_arith)
        requires
            q == n / d,
            d > 0,
    ;
    if 2 * rem > d || (2 * rem == d && q % 2 == 1) {
        q + 1
    } else {
        q
    }
}

/// The exact value of `b as f64`.
fn double_value(b: u64) -> (v: u128)
    ensures
        v == as_double(b as nat),
        v <= 0x2_0000_0000_0000_0000,
{
    let mut t: u128 = b as u128;
    let mut step: u128 = 1;
    let ghost mut e: nat = 0;
    while t >= 0x20_0000_0000_0000
        invariant
            step == power(2, e),
            t == (b as nat) / (step as nat),
            dropped_bits(b as nat) == e + dropped_bits(t as nat),
            step * t <= b,
            1 <= step <= 4096,
            t <= b,
        decreases t,
    {
        proof {
            vstd::arithmetic::div_mod::lemma_div_denominator(b as int, step as int, 2);
            assert(step * 2 * (t / 2) <= step * t) by (nonlinear_arith)
                requires
                    step >= 1,
            ;
            assert(step <= 2048) by (nonlinear_arith)
                requires
                    step * t <= b,
                    t >= 0x20_0000_0000_0000,
                    b < 0x1_0000_0000_0000_0000,
            ;
            assert(power(2, e + 1) == 2 * power(2, e));
        }
        t = t / 2;
        step = step * 2;
        proof {
            e = e + 1;
        }
    }
    let r = rounded_quotient(b as u128, step);
    assert(r <= t + 1);
    assert(r * step <= 0x2_0000_0000_0000_0000) by (nonlinear_arith)
        requires
            r <= 0x20_0000_0000_0000,
            step <= 4096,
    ;
    r * step
}

/// `b` bytes as text with `decimals` (1 or 2) digits after the point.
pub(crate) fn format_size(b: u64, decimals: u32) -> (res: String)
    requires
        1 <= decimals <= 2,
    ensures
        res@ == spec_format_size(b as nat, decimals as nat),
{
    let v = double_value(b);
    let mut unit: u128 = 1;
    let mut i: u32 = 0;
    while i < 4 && v >= unit * 1024
        invariant
            i <= 4,
            unit == power(1024, i as nat),
            unit <= 0x100_0000_0000,
            unit_index(v as nat) == unit_from(v as nat, i as nat),
        decreases 4 - i,
    {
        assert(power(1024, (i + 1) as nat) == 1024 * power(1024, i as nat));
        proof {
            reveal_with_fuel(power, 5);
        }
        unit = unit * 1024;
        i = i + 1;
    }
    assert(power(1024, (i + 1) as nat) == 1024 * power(1024, i as nat));
    assert(unit_index(v as nat) == i);
    let p: u128 = if decimals == 1 { 10 } else { 100 };
    assert(p == power(10, decimals as nat)) by {
        reveal_with_fuel(power, 3);
    }
    assert(v * p <= 0x2_0000_0000_0000_0000 * 100) by (nonlinear_arith)
        requires
            v <= 0x2_0000_0000_0000_0000,
            p <= 100,
    ;
    assert(unit >= 1) by {
        if i > 0 {
            reveal_with_fuel(power, 5);
        }
    }
    let s = rounded_quotient(v * p, unit);
    let mut res = String::new();
    push_decimal(&mut res, s / p);
    push_char(&mut res, '.');
    push_padded(&mut res, s % p, decimals);
    push_char(&mut res, ' ');
    push_unit(&mut res, i);
    assert(res@ =~= spec_format_size(b as nat, decimals as nat));
    res
}

/// Sizes below 1024 bytes are shown exactly: the byte count, a point,
/// zeros, and "B".
pub proof fn law_small_sizes_exact(b: nat, decimals: nat)
    requires
        b < 1024,
    ensures
        spec_format_size(b, decimals) == decimal(b) + seq!['.'] + padded_digits(0, decimals) + seq![' ', 'B'],
{
    assert(dropped_bits(b) == 0);
    assert(power(2, 0) == 1);
    assert(as_double(b) == b);
    assert(power(1024, 1) == 1024) by {
        reveal_with_fuel(power, 2);
    }
    assert(unit_from(b, 0) == 0);
    let p = power(10, decimals);
    assert(p >= 1) by {
        lemma_power_positive(10, decimals);
    }
    assert(power(1024, 0) == 1);
    assert(scaled_amount(b, decimals) == b * p) by {
        assert((b * p) / 1 == b * p);
        assert((b * p) % 1 == 0);
    }
    assert((b * p) / p == b) by (nonlinear_arith)
        requires
            p >= 1,
    ;
    assert((b * p) % p == 0) by (nonlinear_arith)
        requires
            p >= 1,
    ;
}

proof fn lemma_power_positive(base: nat, e: nat)
    requires
        base >= 1,
    ensures
        power(base, e) >= 1,
    decreases e,
{
    if e > 0 {
        lemma_power_positive(base, (e - 1) as nat);
        assert(base * power(base, (e - 1) as nat) >= 1) by (nonlinear_arith)
            requires
                base >= 1,
                power(base, (e - 1) as nat) >= 1,
        ;
    }
}

} // verus!
