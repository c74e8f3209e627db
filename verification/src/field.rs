//! Elements of the prime field over which leaf bytes are committed.
//!
//! The field is the base field of the Pallas curve. An element is held as
//! four 64-bit limbs, least significant first, of its canonical
//! representative; the arithmetic itself is done by `pasta_curves`.

use halo2_proofs::pasta::group::ff::PrimeField;
use halo2_proofs::pasta::Fp;
use vstd::prelude::*;

verus! {

/// The order of the field.
pub open spec fn modulus() -> int {
    0x40000000000000000000000000000000224698fc094cf91b992d30ed00000001int
}

/// Sum of two residues.
pub open spec fn fadd(a: int, b: int) -> int {
    (a + b) % modulus()
}

/// Difference of two residues.
pub open spec fn fsub(a: int, b: int) -> int {
    (a - b) % modulus()
}

/// Product of two residues.
pub open spec fn fmul(a: int, b: int) -> int {
    (a * b) % modulus()
}

/// `r` raised to the power `n`.
pub open spec fn fpow(r: int, n: nat) -> int
    decreases n,
{
    if n == 0 {
        1
    } else {
        fmul(fpow(r, (n - 1) as nat), r)
    }
}

/// The integer that four little-endian 64-bit limbs spell.
pub open spec fn limbs_value(l0: u64, l1: u64, l2: u64, l3: u64) -> int {
    l0 as int + (l1 as int) * 0x1_0000_0000_0000_0000int + (l2 as int)
        * 0x1_0000_0000_0000_0000_0000_0000_0000_0000int + (l3 as int)
        * 0x1_0000_0000_0000_0000_0000_0000_0000_0000_0000_0000_0000_0000int
}

/// A field element, always held as its canonical representative.
#[derive(Clone, Copy, Debug, PartialEq, Eq, Structural)]
pub struct Fe {
    l0: u64,
    l1: u64,
    l2: u64,
    l3: u64,
}

impl View for Fe {
    type V = int;

    closed spec fn view(&self) -> int {
        limbs_value(self.l0, self.l1, self.l2, self.l3)
    }
}

/// `Fp::add` of `pasta_curves`, through the `+` operator: the sum of the two
/// elements modulo the field order. `Fp::from_raw` takes the limbs of an
/// integer into the field and `to_repr` gives the canonical representative
/// back as little-endian bytes.
#[verifier::external_body]
fn fp_add(a: Fe, b: Fe) -> (r: Fe)
    ensures
        r@ == fadd(a@, b@),
{
    let x = Fp::from_raw([a.l0, a.l1, a.l2, a.l3]) + Fp::from_raw([b.l0, b.l1, b.l2, b.l3]);
    let y = x.to_repr();
    Fe {
        l0: u64::from_le_bytes(y[0..8].try_into().unwrap()),
        l1: u64::from_le_bytes(y[8..16].try_into().unwrap()),
        l2: u64::from_le_bytes(y[16..24].try_into().unwrap()),
        l3: u64::from_le_bytes(y[24..32].try_into().unwrap()),
    }
}

/// `Fp::sub` of `pasta_curves`, through the `-` operator: the difference of
/// the two elements modulo the field order.
#[verifier::external_body]
fn fp_sub(a: Fe, b: Fe) -> (r: Fe)
    ensures
        r@ == fsub(a@, b@),
{
    let x = Fp::from_raw([a.l0, a.l1, a.l2, a.l3]) - Fp::from_raw([b.l0, b.l1, b.l2, b.l3]);
    let y = x.to_repr();
    Fe {
        l0: u64::from_le_bytes(y[0..8].try_into().unwrap()),
        l1: u64::from_le_bytes(y[8..16].try_into().unwrap()),
        l2: u64::from_le_bytes(y[16..24].try_into().unwrap()),
        l3: u64::from_le_bytes(y[24..32].try_into().unwrap()),
    }
}

/// `Fp::mul` of `pasta_curves`, through the `*` operator: the product of the
/// two elements modulo the field order.
#[verifier::external_body]
fn fp_mul(a: Fe, b: Fe) -> (r: Fe)
    ensures
        r@ == fmul(a@, b@),
{
    let x = Fp::from_raw([a.l0, a.l1, a.l2, a.l3]) * Fp::from_raw([b.l0, b.l1, b.l2, b.l3]);
    let y = x.to_repr();
    Fe {
        l0: u64::from_le_bytes(y[0..8].try_into().unwrap()),
        l1: u64::from_le_bytes(y[8..16].try_into().unwrap()),
        l2: u64::from_le_bytes(y[16..24].try_into().unwrap()),
        l3: u64::from_le_bytes(y[24..32].try_into().unwrap()),
    }
}

/// The element zero.
pub closed spec fn fe_zero() -> Fe {
    Fe { l0: 0, l1: 0, l2: 0, l3: 0 }
}

impl Fe {
    /// Every element is held as a residue in `[0, modulus())`.
    #[verifier::type_invariant]
    pub open spec fn canonical(self) -> bool {
        0 <= self@ < modulus()
    }

    /// The additive identity.
    pub fn zero() -> (r: Fe)
        ensures
            r@ == 0,
            r == fe_zero(),
    {
        Fe { l0: 0, l1: 0, l2: 0, l3: 0 }
    }

    /// The multiplicative identity.
    pub fn one() -> (r: Fe)
        ensures
            r@ == 1,
    {
        Fe { l0: 1, l1: 0, l2: 0, l3: 0 }
    }

    /// The element that a 64-bit integer stands for.
    pub fn from_u64(v: u64) -> (r: Fe)
        ensures
            r@ == v,
    {
        Fe { l0: v, l1: 0, l2: 0, l3: 0 }
    }

    /// The element that a byte stands for.
    pub fn from_u8(v: u8) -> (r: Fe)
        ensures
            r@ == v,
    {
        Fe { l0: v as u64, l1: 0, l2: 0, l3: 0 }
    }

    /// One for `true`, zero for `false`.
    pub fn from_bool(b: bool) -> (r: Fe)
        ensures
            r@ == if b { 1int } else { 0int },
    {
        if b {
            Fe::one()
        } else {
            Fe::zero()
        }
    }

    /// The element with the given limbs, least significant first, if they
    /// spell an integer below the field order.
    pub fn from_limbs(l0: u64, l1: u64, l2: u64, l3: u64) -> (r: Option<Fe>)
        ensures
            r.is_some() <==> limbs_value(l0, l1, l2, l3) < modulus(),
            r matches Some(e) ==> e@ == limbs_value(l0, l1, l2, l3),
    {
        let below: bool = l3 < 0x4000000000000000 || (l3 == 0x4000000000000000 && l2 == 0 && (l1
            < 0x224698fc094cf91b || (l1 == 0x224698fc094cf91b && l0 < 0x992d30ed00000001)));
        if below {
            Some(Fe { l0, l1, l2, l3 })
        } else {
            None
        }
    }

    /// The limbs of the canonical representative, least significant first.
    pub fn to_limbs(self) -> (r: (u64, u64, u64, u64))
        ensures
            limbs_value(r.0, r.1, r.2, r.3) == self@,
    {
        (self.l0, self.l1, self.l2, self.l3)
    }

    /// Whether two elements are the same residue.
    pub fn eq_fe(self, other: Fe) -> (b: bool)
        ensures
            b == (self@ == other@),
    {
        self.l0 == other.l0 && self.l1 == other.l1 && self.l2 == other.l2 && self.l3 == other.l3
    }

    /// Whether the element is zero.
    pub fn is_zero(self) -> (b: bool)
        ensures
            b == (self@ == 0),
    {
        self.l0 == 0 && self.l1 == 0 && self.l2 == 0 && self.l3 == 0
    }

    /// Sum in the field.
    pub fn add(self, rhs: Fe) -> (r: Fe)
        ensures
            r@ == fadd(self@, rhs@),
    {
        fp_add(self, rhs)
    }

    /// Difference in the field.
    pub fn sub(self, rhs: Fe) -> (r: Fe)
        ensures
            r@ == fsub(self@, rhs@),
    {
        fp_sub(self, rhs)
    }

    /// Product in the field.
    pub fn mul(self, rhs: Fe) -> (r: Fe)
        ensures
            r@ == fmul(self@, rhs@),
    {
        fp_mul(self, rhs)
    }

    /// `self` raised to the power `n`.
    pub fn pow(self, n: u32) -> (r: Fe)
        ensures
            r@ == fpow(self@, n as nat),
    {
        let mut acc: Fe = Fe::one();
        let mut i: u32 = 0;
        while i < n
            invariant
                i <= n,
                acc@ == fpow(self@, i as nat),
            decreases n - i,
        {
            acc = acc.mul(self);
            i = i + 1;
        }
        acc
    }
}

} // verus!
