//! Laws of the field operations, as lemmas over the residues.

use crate::field::{fadd, fmul, fpow, fsub, modulus};
use vstd::arithmetic::div_mod::*;
use vstd::arithmetic::mul::*;
use vstd::prelude::*;

verus! {

/// Each operation gives a residue in `[0, modulus())`.
pub proof fn lemma_residue(a: int, b: int)
    ensures
        0 <= fadd(a, b) < modulus(),
        0 <= fsub(a, b) < modulus(),
        0 <= fmul(a, b) < modulus(),
{
    lemma_mod_bound(a + b, modulus());
    lemma_mod_bound(a - b, modulus());
    lemma_mod_bound(a * b, modulus());
}

/// A residue is left as it is by reduction.
pub proof fn lemma_reduced(a: int)
    requires
        0 <= a < modulus(),
    ensures
        a % modulus() == a,
{
    lemma_small_mod(a as nat, modulus() as nat);
}

/// Addition sees its operands only up to congruence.
pub proof fn lemma_fadd_reduce(a: int, b: int)
    ensures
        fadd(a % modulus(), b) == fadd(a, b),
        fadd(a, b % modulus()) == fadd(a, b),
        fadd(a % modulus(), b % modulus()) == fadd(a, b),
{
    lemma_add_mod_noop(a, b, modulus());
    lemma_add_mod_noop_right(a, b, modulus());
    lemma_add_mod_noop_right(b, a, modulus());
}

/// Multiplication sees its operands only up to congruence.
pub proof fn lemma_fmul_reduce(a: int, b: int)
    ensures
        fmul(a % modulus(), b) == fmul(a, b),
        fmul(a, b % modulus()) == fmul(a, b),
        fmul(a % modulus(), b % modulus()) == fmul(a, b),
{
    lemma_mul_mod_noop_left(a, b, modulus());
    lemma_mul_mod_noop_right(a, b, modulus());
    lemma_mul_mod_noop_general(a, b, modulus());
}

/// Addition is commutative.
pub proof fn lemma_fadd_comm(a: int, b: int)
    ensures
        fadd(a, b) == fadd(b, a),
{
}

/// Multiplication is commutative.
pub proof fn lemma_fmul_comm(a: int, b: int)
    ensures
        fmul(a, b) == fmul(b, a),
{
    lemma_mul_is_commutative(a, b);
}

/// Addition is associative.
pub proof fn lemma_fadd_assoc(a: int, b: int, c: int)
    ensures
        fadd(fadd(a, b), c) == fadd(a, fadd(b, c)),
{
    lemma_fadd_reduce(a + b, c);
    lemma_fadd_reduce(a, b + c);
}

/// Multiplication is associative.
pub proof fn lemma_fmul_assoc(a: int, b: int, c: int)
    ensures
        fmul(fmul(a, b), c) == fmul(a, fmul(b, c)),
{
    lemma_fmul_reduce(a * b, c);
    lemma_fmul_reduce(a, b * c);
    lemma_mul_is_associative(a, b, c);
}

/// Multiplication distributes over addition.
pub proof fn lemma_fmul_distrib(a: int, b: int, c: int)
    ensures
        fmul(a, fadd(b, c)) == fadd(fmul(a, b), fmul(a, c)),
        fmul(fadd(b, c), a) == fadd(fmul(b, a), fmul(c, a)),
{
    lemma_fmul_reduce(a, b + c);
    lemma_fadd_reduce(a * b, a * c);
    lemma_mul_is_distributive_add(a, b, c);
    lemma_fmul_comm(a, fadd(b, c));
    lemma_fmul_comm(a, b);
    lemma_fmul_comm(a, c);
}

/// One is neutral for multiplication, zero for addition, on residues.
pub proof fn lemma_neutral(a: int)
    requires
        0 <= a < modulus(),
    ensures
        fmul(a, 1) == a,
        fmul(1, a) == a,
        fadd(a, 0) == a,
        fadd(0, a) == a,
        fsub(a, 0) == a,
        fmul(a, 0) == 0,
        fmul(0, a) == 0,
{
    lemma_reduced(a);
    lemma_reduced(0);
    assert(a * 1 == a);
    assert(1 * a == a);
    assert(a * 0 == 0);
    assert(0 * a == 0);
}

/// A power is a residue.
pub proof fn lemma_fpow_residue(r: int, n: nat)
    ensures
        0 <= fpow(r, n) < modulus(),
    decreases n,
{
    if n > 0 {
        lemma_residue(fpow(r, (n - 1) as nat), r);
    }
}

/// Powers add their exponents.
pub proof fn lemma_fpow_add(r: int, m: nat, n: nat)
    ensures
        fpow(r, m + n) == fmul(fpow(r, m), fpow(r, n)),
    decreases n,
{
    lemma_fpow_residue(r, m);
    if n == 0 {
        lemma_neutral(fpow(r, m));
    } else {
        lemma_fpow_add(r, m, (n - 1) as nat);
        assert(fpow(r, m + n) == fmul(fpow(r, (m + n - 1) as nat), r));
        lemma_fmul_assoc(fpow(r, m), fpow(r, (n - 1) as nat), r);
    }
}

/// A common summand can be taken away from both sides of an equation.
pub proof fn lemma_fadd_cancel(c: int, x: int, y: int)
    requires
        fadd(c, x) == fadd(c, y),
    ensures
        x % modulus() == y % modulus(),
{
    lemma_mod_equivalence(c + x, c + y, modulus());
    assert((c + x) - (c + y) == x - y);
    lemma_mod_equivalence(x, y, modulus());
}

/// The field order has no divisor from 2 to 16.
proof fn lemma_no_small_divisor(c: int)
    requires
        2 <= c <= 16,
    ensures
        modulus() % c != 0,
{
    let p = modulus();
    if c == 2 {
        assert(p % 2 == 1);
    } else if c == 3 {
        assert(p % 3 == 1);
    } else if c == 4 {
        assert(p % 4 == 1);
    } else if c == 5 {
        assert(p % 5 == 2);
    } else if c == 6 {
        assert(p % 6 == 1);
    } else if c == 7 {
        assert(p % 7 == 5);
    } else if c == 8 {
        assert(p % 8 == 1);
    } else if c == 9 {
        assert(p % 9 == 4);
    } else if c == 10 {
        assert(p % 10 == 7);
    } else if c == 11 {
        assert(p % 11 == 6);
    } else if c == 12 {
        assert(p % 12 == 1);
    } else if c == 13 {
        assert(p % 13 == 5);
    } else if c == 14 {
        assert(p % 14 == 5);
    } else if c == 15 {
        assert(p % 15 == 7);
    } else {
        assert(p % 16 == 1);
    }
}

/// A residue whose multiple by a factor from 1 to 16 is zero in the field
/// is zero itself. The factor is brought down to the remainder that the
/// field order leaves on division by it, which is smaller and not zero,
/// until it is one.
pub proof fn lemma_small_multiple(c: int, m: int)
    requires
        1 <= c <= 16,
        0 <= m < modulus(),
        fmul(c, m) == 0,
    ensures
        m == 0,
    decreases c,
{
    let p = modulus();
    if c == 1 {
        assert(1 * m == m);
        lemma_reduced(m);
    } else {
        let q = p / c;
        let c2 = p % c;
        lemma_no_small_divisor(c);
        lemma_fundamental_div_mod(p, c);
        lemma_mod_bound(p, c);
        let t = (c * m) / p;
        lemma_fundamental_div_mod(c * m, p);
        assert(c2 * m == p * (m - q * t)) by (nonlinear_arith)
            requires
                p == c * q + c2,
                c * m == p * t,
        ;
        lemma_mod_multiples_basic(m - q * t, p);
        assert(p * (m - q * t) == (m - q * t) * p) by (nonlinear_arith);
        lemma_small_multiple(c2, m);
    }
}

/// Two residue multiples of a nonzero residue by factors from 0 to 15 are
/// equal only where the factors are.
pub proof fn lemma_small_factor_cancel(a: int, b: int, m: int)
    requires
        0 <= a <= 15,
        0 <= b <= 15,
        0 < m < modulus(),
        fmul(a, m) == fmul(b, m),
    ensures
        a == b,
{
    let p = modulus();
    if a != b {
        let hi = if a > b {
            a
        } else {
            b
        };
        let lo = if a > b {
            b
        } else {
            a
        };
        lemma_mod_equivalence(hi * m, lo * m, p);
        assert(hi * m - lo * m == (hi - lo) * m) by (nonlinear_arith);
        lemma_small_multiple(hi - lo, m);
    }
}

} // verus!
