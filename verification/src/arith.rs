//! Greatest common divisors and least common multiples.

use vstd::prelude::*;

verus! {

/// Euclid's greatest common divisor on mathematical integers.
pub open spec fn gcd_spec(a: nat, b: nat) -> nat
    decreases b,
{
    if b == 0 {
        a
    } else {
        gcd_spec(b, a % b)
    }
}

/// The divisor that the normalising constructors use: the greatest common
/// divisor, or one where both arguments are zero.
pub open spec fn normalizer(a: nat, b: nat) -> nat {
    if gcd_spec(a, b) == 0 {
        1
    } else {
        gcd_spec(a, b)
    }
}

/// Writes `x` as `d * (x / d) + x % d` with the remainder below `d`.
proof fn lemma_div_mod(x: nat, d: nat)
    requires
        d > 0,
    ensures
        x == d * (x / d) + x % d,
        x % d < d,
{
    vstd::arithmetic::div_mod::lemma_fundamental_div_mod(x as int, d as int);
}

/// The greatest common divisor of two numbers, not both zero, is positive and
/// divides both.
pub proof fn lemma_gcd_divides(a: nat, b: nat)
    requires
        a > 0 || b > 0,
    ensures
        gcd_spec(a, b) > 0,
        a % gcd_spec(a, b) == 0,
        b % gcd_spec(a, b) == 0,
    decreases b,
{
    if b == 0 {
        vstd::arithmetic::div_mod::lemma_mod_self_0(a as int);
    } else {
        lemma_div_mod(a, b);
        lemma_gcd_divides(b, a % b);
        let g = gcd_spec(a, b);
        lemma_div_mod(b, g);
        lemma_div_mod(a % b, g);
        let s = b / g;
        let t = (a % b) / g;
        let q = a / b;
        assert(a == g * (s * q + t)) by (nonlinear_arith)
            requires
                a == b * q + a % b,
                b == g * s,
                a % b == g * t,
        ;
        vstd::arithmetic::div_mod::lemma_mod_multiples_basic((s * q + t) as int, g as int);
        assert(a % g == 0) by (nonlinear_arith)
            requires
                a == g * (s * q + t),
                (((s * q + t) * g) as int) % (g as int) == 0,
        ;
    }
}

/// Scaling both arguments scales the greatest common divisor.
pub proof fn lemma_gcd_scale(k: nat, a: nat, b: nat)
    requires
        k > 0,
    ensures
        gcd_spec(k * a, k * b) == k * gcd_spec(a, b),
    decreases b,
{
    if b == 0 {
        assert(k * b == 0) by (nonlinear_arith)
            requires
                b == 0,
        ;
    } else {
        lemma_div_mod(a, b);
        let q = a / b;
        let r = a % b;
        assert(k * b > 0 && k * a == q * (k * b) + k * r && k * r < k * b) by (nonlinear_arith)
            requires
                k > 0,
                b > 0,
                a == b * q + r,
                r < b,
        ;
        vstd::arithmetic::div_mod::lemma_fundamental_div_mod_converse(
            (k * a) as int,
            (k * b) as int,
            q as int,
            (k * r) as int,
        );
        lemma_gcd_scale(k, b, r);
    }
}

/// A common divisor of two numbers divides their greatest common divisor.
pub proof fn lemma_common_divisor_divides_gcd(d: nat, a: nat, b: nat)
    requires
        d > 0,
        a % d == 0,
        b % d == 0,
    ensures
        gcd_spec(a, b) % d == 0,
    decreases b,
{
    if b > 0 {
        lemma_div_mod(a, b);
        lemma_div_mod(a, d);
        lemma_div_mod(b, d);
        let q = a / b;
        let r = a % b;
        let x = a / d;
        let y = b / d;
        assert(r == d * (x - y * q)) by (nonlinear_arith)
            requires
                a == b * q + r,
                a == d * x,
                b == d * y,
        ;
        assert(x - y * q >= 0) by (nonlinear_arith)
            requires
                r == d * (x - y * q),
                d > 0,
        ;
        let m = (x - y * q) as nat;
        vstd::arithmetic::div_mod::lemma_mod_multiples_basic(m as int, d as int);
        assert(r % d == 0) by (nonlinear_arith)
            requires
                r == d * m,
                ((m * d) as int) % (d as int) == 0,
        ;
        lemma_common_divisor_divides_gcd(d, b, r);
    }
}

/// Dividing two numbers, not both zero, by their greatest common divisor
/// leaves coprime numbers.
pub proof fn lemma_reduced_is_coprime(a: nat, b: nat)
    requires
        a > 0 || b > 0,
    ensures
        gcd_spec(a, b) > 0,
        gcd_spec(a / gcd_spec(a, b), b / gcd_spec(a, b)) == 1,
        a == gcd_spec(a, b) * (a / gcd_spec(a, b)),
        b == gcd_spec(a, b) * (b / gcd_spec(a, b)),
{
    let g = gcd_spec(a, b);
    lemma_gcd_divides(a, b);
    lemma_div_mod(a, g);
    lemma_div_mod(b, g);
    lemma_gcd_scale(g, a / g, b / g);
    assert(g * 1 == g * gcd_spec(a / g, b / g));
    assert(gcd_spec(a / g, b / g) == 1) by (nonlinear_arith)
        requires
            g > 0,
            g * 1 == g * gcd_spec(a / g, b / g),
    ;
}

/// Two coprime pairs with equal cross products are identical.
pub proof fn lemma_coprime_cross_unique(a: nat, b: nat, c: nat, e: nat)
    requires
        b > 0,
        e > 0,
        gcd_spec(a, b) == 1,
        gcd_spec(c, e) == 1,
        a * e == c * b,
    ensures
        a == c,
        b == e,
{
    // b divides a * e and b * e, so it divides e * gcd(a, b) == e.
    lemma_divides_cross(a, b, c, e);
    lemma_divides_cross(c, e, a, b);
    assert(b == e) by (nonlinear_arith)
        requires
            b > 0,
            e > 0,
            e % b == 0,
            b % e == 0,
    {
        lemma_div_mod(e, b);
        lemma_div_mod(b, e);
    }
    assert(a == c) by (nonlinear_arith)
        requires
            a * e == c * b,
            b == e,
            e > 0,
    ;
}

proof fn lemma_divides_cross(a: nat, b: nat, c: nat, e: nat)
    requires
        b > 0,
        e > 0,
        gcd_spec(a, b) == 1,
        a * e == c * b,
    ensures
        e % b == 0,
{
    lemma_gcd_scale(e, a, b);
    vstd::arithmetic::div_mod::lemma_mod_multiples_basic(c as int, b as int);
    vstd::arithmetic::div_mod::lemma_mod_multiples_basic(e as int, b as int);
    assert((e * a) % b == 0 && (e * b) % b == 0) by (nonlinear_arith)
        requires
            a * e == c * b,
            ((c * b) as int) % (b as int) == 0,
            ((e * b) as int) % (b as int) == 0,
    ;
    lemma_common_divisor_divides_gcd(b, e * a, e * b);
    assert(e * 1 == e);
}

/// Computes the greatest common divisor, or one when both arguments are zero.
pub fn gcd_u64(left: u64, right: u64) -> (g: u64)
    ensures
        g == normalizer(left as nat, right as nat),
{
    let mut a = left;
    let mut b = right;
    while b != 0
        invariant
            gcd_spec(a as nat, b as nat) == gcd_spec(left as nat, right as nat),
        decreases b,
    {
        let r = a % b;
        a = b;
        b = r;
    }
    if a == 0 {
        1
    } else {
        a
    }
}

/// Computes the greatest common divisor of two 32-bit numbers, or one when
/// both are zero.
pub fn gcd_u32(left: u32, right: u32) -> (g: u32)
    ensures
        g == normalizer(left as nat, right as nat),
{
    let mut a = left;
    let mut b = right;
    while b != 0
        invariant
            gcd_spec(a as nat, b as nat) == gcd_spec(left as nat, right as nat),
        decreases b,
    {
        let r = a % b;
        a = b;
        b = r;
    }
    if a == 0 {
        1
    } else {
        a
    }
}

} // verus!
