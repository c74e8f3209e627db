//! The accumulator that commits a byte sequence to one field element: the
//! randomized linear combination of the bytes with the powers of a
//! challenge.

use crate::algebra::{
    lemma_fadd_assoc, lemma_fmul_assoc, lemma_fmul_comm, lemma_fmul_distrib, lemma_fpow_add,
    lemma_fpow_residue, lemma_neutral, lemma_residue,
};
use crate::field::{fadd, fmul, fpow, modulus, Fe};
use vstd::prelude::*;

verus! {

/// The combination of the first `n` bytes: the sum of `bytes[i] * r^i` for
/// `i < n`.
pub open spec fn rlc_upto(bytes: Seq<u8>, r: int, n: nat) -> int
    decreases n,
{
    if n == 0 {
        0
    } else {
        fadd(rlc_upto(bytes, r, (n - 1) as nat), fmul(bytes[n - 1] as int, fpow(r, (n - 1) as nat)))
    }
}

/// The combination of a byte sequence: the sum of `bytes[i] * r^i`.
pub open spec fn rlc(bytes: Seq<u8>, r: int) -> int {
    rlc_upto(bytes, r, bytes.len())
}

/// A combination is a residue.
pub proof fn lemma_rlc_residue(bytes: Seq<u8>, r: int, n: nat)
    ensures
        0 <= rlc_upto(bytes, r, n) < modulus(),
{
    if n > 0 {
        lemma_residue(
            rlc_upto(bytes, r, (n - 1) as nat),
            fmul(bytes[n - 1] as int, fpow(r, (n - 1) as nat)),
        );
    }
}

/// The combination of the first `n` bytes depends on those bytes alone.
pub proof fn lemma_rlc_prefix(a: Seq<u8>, b: Seq<u8>, r: int, n: nat)
    requires
        n <= a.len(),
        n <= b.len(),
        forall|i: int| 0 <= i < n ==> a[i] == b[i],
    ensures
        rlc_upto(a, r, n) == rlc_upto(b, r, n),
    decreases n,
{
    if n > 0 {
        lemma_rlc_prefix(a, b, r, (n - 1) as nat);
    }
}

/// Adding the term `b * (m * w)` to `a + m * s` is adding `b * w` to `s`
/// under the factor `m`.
pub proof fn lemma_accumulate_step(a: int, m: int, s: int, b: int, w: int)
    ensures
        fadd(fadd(a, fmul(m, s)), fmul(b, fmul(m, w))) == fadd(a, fmul(m, fadd(s, fmul(b, w)))),
{
    lemma_fmul_distrib(m, s, fmul(b, w));
    lemma_fadd_assoc(a, fmul(m, s), fmul(m, fmul(b, w)));
    lemma_fmul_assoc(m, b, w);
    lemma_fmul_comm(m, b);
    lemma_fmul_assoc(b, m, w);
}

/// The combination of a concatenation: the second part enters under the
/// power of the challenge that the length of the first part gives.
pub proof fn lemma_rlc_concat(a: Seq<u8>, b: Seq<u8>, r: int)
    ensures
        rlc(a + b, r) == fadd(rlc(a, r), fmul(fpow(r, a.len()), rlc(b, r))),
{
    lemma_rlc_concat_upto(a, b, r, b.len());
    assert((a + b).len() == a.len() + b.len());
}

proof fn lemma_rlc_concat_upto(a: Seq<u8>, b: Seq<u8>, r: int, k: nat)
    requires
        k <= b.len(),
    ensures
        rlc_upto(a + b, r, a.len() + k) == fadd(
            rlc(a, r),
            fmul(fpow(r, a.len()), rlc_upto(b, r, k)),
        ),
    decreases k,
{
    let w = fpow(r, a.len());
    lemma_fpow_residue(r, a.len());
    lemma_rlc_residue(a, r, a.len());
    if k == 0 {
        lemma_rlc_prefix(a + b, a, r, a.len());
        lemma_neutral(w);
        lemma_neutral(rlc(a, r));
    } else {
        let j = (k - 1) as nat;
        lemma_rlc_concat_upto(a, b, r, j);
        assert((a + b)[(a.len() + j) as int] == b[j as int]);
        lemma_fpow_add(r, a.len(), j);
        lemma_accumulate_step(rlc(a, r), w, rlc_upto(b, r, j), b[j as int] as int, fpow(r, j));
    }
}

/// Zero bytes at the end of a sequence add nothing to its combination.
pub proof fn lemma_rlc_zero_tail(a: Seq<u8>, r: int, n: nat)
    requires
        n <= a.len(),
        forall|i: int| n <= i < a.len() ==> a[i] == 0,
    ensures
        rlc(a, r) == rlc(a.subrange(0, n as int), r),
{
    lemma_rlc_zero_tail_upto(a, r, n, a.len());
    lemma_rlc_prefix(a, a.subrange(0, n as int), r, n);
}

proof fn lemma_rlc_zero_tail_upto(a: Seq<u8>, r: int, n: nat, k: nat)
    requires
        n <= k <= a.len(),
        forall|i: int| n <= i < a.len() ==> a[i] == 0,
    ensures
        rlc_upto(a, r, k) == rlc_upto(a, r, n),
    decreases k,
{
    if k > n {
        lemma_rlc_zero_tail_upto(a, r, n, (k - 1) as nat);
        let w = fpow(r, (k - 1) as nat);
        lemma_rlc_residue(a, r, (k - 1) as nat);
        assert(0 * w == 0);
        lemma_neutral(rlc_upto(a, r, (k - 1) as nat));
        crate::algebra::lemma_reduced(0);
    }
}

/// The combination of `bytes` with the powers of `r`.
pub fn compute_rlc(bytes: &[u8], r: Fe) -> (out: Fe)
    ensures
        out@ == rlc(bytes@, r@),
{
    let n: usize = bytes.len();
    let mut acc: Fe = Fe::zero();
    let mut pw: Fe = Fe::one();
    let mut i: usize = 0;
    while i < n
        invariant
            i <= n,
            n == bytes@.len(),
            acc@ == rlc_upto(bytes@, r@, i as nat),
            pw@ == fpow(r@, i as nat),
        decreases n - i,
    {
        acc = acc.add(Fe::from_u8(bytes[i]).mul(pw));
        pw = pw.mul(r);
        i = i + 1;
    }
    acc
}

/// Carries an accumulator over `len` bytes of `row` from `start` on: each
/// byte is added under the running multiplier, which then advances by one
/// power of `r`. The accumulator gains the combination of those bytes under
/// the multiplier it started with.
pub fn compute_acc_and_mult(
    row: &[u8],
    acc: &mut Fe,
    mult: &mut Fe,
    start: usize,
    len: usize,
    r: Fe,
)
    requires
        start + len <= row@.len(),
    ensures
        final(acc)@ == fadd(
            old(acc)@,
            fmul(old(mult)@, rlc(row@.subrange(start as int, start + len), r@)),
        ),
        final(mult)@ == fmul(old(mult)@, fpow(r@, len as nat)),
{
    let ghost seg = row@.subrange(start as int, start + len);
    let ghost a0 = acc@;
    let ghost m0 = mult@;
    let n: usize = row.len();
    proof {
        use_type_invariant(&*acc);
        use_type_invariant(&*mult);
        lemma_neutral(a0);
        lemma_neutral(m0);
    }
    let mut i: usize = 0;
    while i < len
        invariant
            i <= len,
            start + len <= n,
            n == row@.len(),
            seg == row@.subrange(start as int, start + len),
            acc@ == fadd(a0, fmul(m0, rlc_upto(seg, r@, i as nat))),
            mult@ == fmul(m0, fpow(r@, i as nat)),
        decreases len - i,
    {
        proof {
            lemma_accumulate_step(
                a0,
                m0,
                rlc_upto(seg, r@, i as nat),
                row@[start + i] as int,
                fpow(r@, i as nat),
            );
            lemma_fmul_assoc(m0, fpow(r@, i as nat), r@);
            assert(seg[i as int] == row@[start + i]);
        }
        *acc = acc.add(Fe::from_u8(row[start + i]).mul(*mult));
        *mult = mult.mul(r);
        i = i + 1;
    }
}

} // verus!
