//! Greatest-common-divisor arithmetic.
//!
//! Directions in this engine are integer pairs kept in lowest terms, so the
//! vector code needs a gcd: its definition, an executable computation of it,
//! and the handful of divisibility facts that reducing a pair to lowest terms
//! rests on.

use vstd::prelude::*;
use vstd::arithmetic::div_mod::{
    lemma_div_multiples_vanish, lemma_div_nonincreasing, lemma_fundamental_div_mod,
    lemma_truncate_middle,
};

verus! {

/// The magnitude of an integer, as a natural number.
pub open spec fn mag(x: int) -> nat {
    if x >= 0 {
        x as nat
    } else {
        (-x) as nat
    }
}

/// `d` divides `a`.
pub open spec fn divides(d: nat, a: nat) -> bool {
    exists|q: nat| a == #[trigger] (d * q)
}

/// The greatest common divisor, by the Euclidean algorithm.
///
/// `gcd(a, 0) == a`, so in particular `gcd(0, 0) == 0`.
pub open spec fn gcd(a: nat, b: nat) -> nat
    decreases b,
{
    if b == 0 {
        a
    } else {
        gcd(b, a % b)
    }
}

/// The gcd of a pair with a nonzero member is positive.
pub proof fn lemma_gcd_pos(a: nat, b: nat)
    requires
        a > 0 || b > 0,
    ensures
        gcd(a, b) > 0,
    decreases b,
{
    if b != 0 {
        lemma_gcd_pos(b, a % b);
    }
}

/// The gcd of a pair divides both of its members.
pub proof fn lemma_gcd_divides(a: nat, b: nat)
    ensures
        divides(gcd(a, b), a),
        divides(gcd(a, b), b),
    decreases b,
{
    let g = gcd(a, b);
    if b == 0 {
        assert(a == g * 1);
        assert(b == g * 0);
    } else {
        lemma_gcd_divides(b, a % b);
        let qb = choose|q: nat| b == #[trigger] (g * q);
        let qr = choose|q: nat| (a % b) == #[trigger] (g * q);
        lemma_fundamental_div_mod(a as int, b as int);
        let d = a / b;
        assert(a == b * d + a % b);
        assert(b * d + a % b == g * (qb * d + qr)) by (nonlinear_arith)
            requires
                b == g * qb,
                a % b == g * qr,
        {
        }
        assert(a == g * ((qb * d + qr) as nat));
    }
}

/// Scaling both members of a pair scales their gcd.
pub proof fn lemma_gcd_scale(k: nat, a: nat, b: nat)
    requires
        k > 0,
    ensures
        gcd(k * a, k * b) == k * gcd(a, b),
    decreases b,
{
    if b == 0 {
        assert(k * b == 0);
    } else {
        assert(k * b > 0) by (nonlinear_arith)
            requires
                k > 0,
                b > 0,
        {
        }
        lemma_truncate_middle(a as int, k as int, b as int);
        assert((k * a) % (k * b) == k * (a % b));
        lemma_gcd_scale(k, b, a % b);
        assert(gcd(k * a, k * b) == gcd(k * b, (k * a) % (k * b)));
    }
}

/// Dividing a pair through by its gcd leaves a coprime pair.
pub proof fn lemma_gcd_quotients_coprime(a: nat, b: nat, qa: nat, qb: nat)
    requires
        a > 0 || b > 0,
        a == gcd(a, b) * qa,
        b == gcd(a, b) * qb,
    ensures
        gcd(qa, qb) == 1,
{
    let g = gcd(a, b);
    lemma_gcd_pos(a, b);
    lemma_gcd_scale(g, qa, qb);
    assert(g * gcd(qa, qb) == g);
    assert(gcd(qa, qb) == 1) by (nonlinear_arith)
        requires
            g > 0,
            g * gcd(qa, qb) == g,
    {
    }
}

/// An exact quotient by a positive divisor is what Euclidean division returns.
pub proof fn lemma_exact_quotient(x: int, d: int, q: int)
    requires
        d > 0,
        x == d * q,
    ensures
        x / d == q,
{
    lemma_div_multiples_vanish(q, d);
}

/// Compute the greatest common divisor of two machine words.
pub fn gcd_u64(a: u64, b: u64) -> (g: u64)
    ensures
        g == gcd(a as nat, b as nat),
{
    let mut x = a;
    let mut y = b;
    while y != 0
        invariant
            gcd(x as nat, y as nat) == gcd(a as nat, b as nat),
        decreases y,
    {
        let r = x % y;
        x = y;
        y = r;
    }
    x
}

/// A quotient of naturals never exceeds the dividend.
pub proof fn lemma_quotient_le(a: nat, d: nat)
    requires
        d > 0,
    ensures
        a / d <= a,
{
    lemma_div_nonincreasing(a as int, d as int);
}

} // verus!
