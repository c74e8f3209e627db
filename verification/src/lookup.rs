//! The tables that the chips look values up in: the powers of the
//! challenge by key length, the zero cells after a key, and the hash table
//! that holds each hashed input with its length and digest.

use crate::field::{fpow, Fe};
use crate::rlc::{compute_rlc, rlc};
use vstd::prelude::*;

verus! {

/// Whether `mult` is the power of the challenge that is reached after a key
/// whose length byte is `len_byte` and `shift` cells more:
/// `r^(len_byte - 128 + shift)`. A length byte that gives a negative
/// exponent is in no row of the table.
pub open spec fn mult_diff_holds(len_byte: u8, shift: int, mult: int, r: int) -> bool {
    len_byte - 128 + shift >= 0 && mult == fpow(r, (len_byte - 128 + shift) as nat)
}

/// Looks `(len_byte - 128 + shift, mult)` up among the powers of `r`.
pub fn mult_diff_lookup(len_byte: u8, shift: u8, mult: Fe, r: Fe) -> (ok: bool)
    ensures
        ok == mult_diff_holds(len_byte, shift as int, mult@, r@),
{
    let exp: i32 = len_byte as i32 - 128 + shift as i32;
    if exp < 0 {
        false
    } else {
        r.pow(exp as u32).eq_fe(mult)
    }
}

/// Whether every cell from position `from` on is zero.
pub open spec fn zeros_from(cells: Seq<u8>, from: int) -> bool {
    forall|i: int| 0 <= i < cells.len() && from <= i ==> cells[i] == 0
}

/// Checks that every cell from position `from` on is zero.
pub fn check_zeros_from(cells: &[u8], from: i64) -> (ok: bool)
    ensures
        ok == zeros_from(cells@, from as int),
{
    let n: usize = cells.len();
    let start: usize = if from <= 0 {
        0
    } else if from as u64 >= n as u64 {
        n
    } else {
        from as usize
    };
    let mut i: usize = start;
    while i < n
        invariant
            start <= i <= n,
            n == cells@.len(),
            start as int == if from <= 0 {
                0
            } else if from >= n {
                n as int
            } else {
                from as int
            },
            forall|j: int| start <= j < i ==> cells@[j] == 0,
        decreases n - i,
    {
        if cells[i] != 0 {
            return false;
        }
        i = i + 1;
    }
    true
}

/// One row of the hash table: the combination of an input, its length, and
/// the combination of its digest.
#[derive(Clone, Copy, Debug)]
pub struct KeccakEntry {
    pub input_rlc: Fe,
    pub input_len: usize,
    pub output_rlc: Fe,
}

/// The hash table, as the hashing side filled it.
#[derive(Debug)]
pub struct KeccakTable {
    pub entries: Vec<KeccakEntry>,
}

/// Whether the rows hold the triple `(input_rlc, input_len, output_rlc)`.
pub open spec fn keccak_contains(
    entries: Seq<KeccakEntry>,
    input_rlc: int,
    input_len: int,
    output_rlc: int,
) -> bool {
    exists|i: int|
        0 <= i < entries.len() && (#[trigger] entries[i]).input_rlc@ == input_rlc
            && entries[i].input_len == input_len && entries[i].output_rlc@ == output_rlc
}

/// Whether a row is that of the input `input` with the digest `digest`.
pub open spec fn is_entry_of(e: KeccakEntry, input: Seq<u8>, digest: Seq<u8>, r: int) -> bool {
    e.input_rlc@ == rlc(input, r) && e.input_len == input.len() && e.output_rlc@ == rlc(digest, r)
}

impl KeccakTable {
    /// The table with no row.
    pub fn new() -> (t: KeccakTable)
        ensures
            t.entries@.len() == 0,
    {
        KeccakTable { entries: Vec::new() }
    }

    /// Adds the row of an input and its digest.
    pub fn insert(&mut self, input: &[u8], digest: &[u8], r: Fe)
        ensures
            final(self).entries@.len() == old(self).entries@.len() + 1,
            final(self).entries@.subrange(0, old(self).entries@.len() as int) == old(
                self,
            ).entries@,
            is_entry_of(final(self).entries@.last(), input@, digest@, r@),
    {
        let e = KeccakEntry {
            input_rlc: compute_rlc(input, r),
            input_len: input.len(),
            output_rlc: compute_rlc(digest, r),
        };
        self.entries.push(e);
        assert(self.entries@.subrange(0, old(self).entries@.len() as int) =~= old(self).entries@);
    }

    /// Looks the triple `(input_rlc, input_len, output_rlc)` up.
    pub fn lookup(&self, input_rlc: Fe, input_len: i64, output_rlc: Fe) -> (found: bool)
        ensures
            found == keccak_contains(self.entries@, input_rlc@, input_len as int, output_rlc@),
    {
        let n: usize = self.entries.len();
        let mut i: usize = 0;
        while i < n
            invariant
                i <= n,
                n == self.entries@.len(),
                forall|j: int|
                    0 <= j < i ==> !((#[trigger] self.entries@[j]).input_rlc@ == input_rlc@
                        && self.entries@[j].input_len == input_len
                        && self.entries@[j].output_rlc@ == output_rlc@),
            decreases n - i,
        {
            let e: KeccakEntry = self.entries[i];
            if input_len >= 0 && e.input_len as u64 == input_len as u64 && e.input_rlc.eq_fe(
                input_rlc,
            ) && e.output_rlc.eq_fe(output_rlc) {
                return true;
            }
            i = i + 1;
        }
        false
    }
}

/// Once the row of an input `input` with digest `digest` is in the table,
/// the lookup accepts the input's combination with its length and the
/// digest's combination; and where no other row holds the same input
/// combination, it accepts that combination with no other length and no
/// other digest.
pub proof fn lemma_keccak_round_trip(
    entries: Seq<KeccakEntry>,
    k: int,
    input: Seq<u8>,
    digest: Seq<u8>,
    r: int,
    len: int,
    out: int,
)
    requires
        0 <= k < entries.len(),
        is_entry_of(entries[k], input, digest, r),
    ensures
        keccak_contains(entries, rlc(input, r), input.len() as int, rlc(digest, r)),
        (forall|j: int|
            0 <= j < entries.len() && j != k ==> (#[trigger] entries[j]).input_rlc@ != rlc(input, r))
            && keccak_contains(entries, rlc(input, r), len, out) ==> len == input.len() && out
            == rlc(digest, r),
{
}

} // verus!
