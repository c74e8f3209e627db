//! The table of witness rows that the leaf chips read: one row of byte
//! cells, selector cells and accumulator cells per position, looked up by
//! absolute position and a relative offset.

use crate::field::{fe_zero, Fe};
use vstd::prelude::*;

verus! {

/// Rows that a branch takes: its first row, sixteen children, two extension rows.
pub const BRANCH_ROWS_NUM: i32 = 19;

/// Rows that the extension node takes at the end of a branch.
pub const EXTENSION_ROWS_NUM: i32 = 2;

/// Rows that an account leaf takes.
pub const ACCOUNT_LEAF_ROWS: i32 = 8;

/// Rows that a storage leaf takes.
pub const STORAGE_LEAF_ROWS: i32 = 6;

/// Position of the key row of the S leaf among the rows of a storage leaf.
pub const LEAF_KEY_S_IND: i32 = 0;

/// Position of the value row of the S leaf.
pub const LEAF_VALUE_S_IND: i32 = 1;

/// Position of the key row of the C leaf.
pub const LEAF_KEY_C_IND: i32 = 2;

/// Position of the value row of the C leaf.
pub const LEAF_VALUE_C_IND: i32 = 3;

/// Position of the key row of the S account leaf among the rows of an account leaf.
pub const ACCOUNT_LEAF_KEY_S_IND: i32 = 0;

/// Position of the key row of the C account leaf.
pub const ACCOUNT_LEAF_KEY_C_IND: i32 = 1;

/// Position of the nonce and balance row of the S account leaf.
pub const ACCOUNT_LEAF_NONCE_BALANCE_S_IND: i32 = 3;

/// Position of the nonce and balance row of the C account leaf.
pub const ACCOUNT_LEAF_NONCE_BALANCE_C_IND: i32 = 4;

/// Position of the storage root and code hash row of the S account leaf.
pub const ACCOUNT_LEAF_STORAGE_CODEHASH_S_IND: i32 = 5;

/// Position of the storage root and code hash row of the C account leaf.
pub const ACCOUNT_LEAF_STORAGE_CODEHASH_C_IND: i32 = 6;

/// Position of the drifted leaf row of an account leaf.
pub const ACCOUNT_DRIFTED_LEAF_IND: i32 = 7;

/// One for `true`, zero for `false`.
pub open spec fn b2i(b: bool) -> int {
    if b {
        1
    } else {
        0
    }
}

/// The four shapes of a leaf's key row.
#[derive(Clone, Copy, Debug, PartialEq, Eq, Structural)]
pub enum LeafShape {
    /// The leaf takes more than 55 bytes: three RLP cells come before the key.
    Long,
    /// Two RLP cells come before the key.
    Short,
    /// The leaf sits in the last level and has no nibble left.
    LastLevel,
    /// The leaf has one nibble left.
    OneNibble,
}

impl LeafShape {
    /// The shape that a pair of flags selects.
    pub open spec fn of_flags(flag1: bool, flag2: bool) -> LeafShape {
        if flag1 && !flag2 {
            LeafShape::Long
        } else if !flag1 && flag2 {
            LeafShape::Short
        } else if flag1 && flag2 {
            LeafShape::LastLevel
        } else {
            LeafShape::OneNibble
        }
    }

    /// The shape that a pair of flags selects.
    pub fn from_flags(flag1: bool, flag2: bool) -> (s: LeafShape)
        ensures
            s == LeafShape::of_flags(flag1, flag2),
    {
        if flag1 && !flag2 {
            LeafShape::Long
        } else if !flag1 && flag2 {
            LeafShape::Short
        } else if flag1 && flag2 {
            LeafShape::LastLevel
        } else {
            LeafShape::OneNibble
        }
    }

    /// Whether the key comes with its length in a cell before it.
    pub open spec fn has_key_length(self) -> bool {
        self == LeafShape::Long || self == LeafShape::Short
    }
}

/// The selector for the long shape: `flag1 * (1 - flag2)`.
pub open spec fn sel_long(flag1: bool, flag2: bool) -> int {
    b2i(flag1) * (1 - b2i(flag2))
}

/// The selector for the short shape: `(1 - flag1) * flag2`.
pub open spec fn sel_short(flag1: bool, flag2: bool) -> int {
    (1 - b2i(flag1)) * b2i(flag2)
}

/// The selector for the last-level shape: `flag1 * flag2`.
pub open spec fn sel_last_level(flag1: bool, flag2: bool) -> int {
    b2i(flag1) * b2i(flag2)
}

/// The selector for the one-nibble shape: `(1 - flag1) * (1 - flag2)`.
pub open spec fn sel_one_nibble(flag1: bool, flag2: bool) -> int {
    (1 - b2i(flag1)) * (1 - b2i(flag2))
}

/// Of the four shape selectors of a row exactly one is set: each is zero or
/// one, they sum to one, and the one that is set is that of the row's shape.
pub proof fn lemma_shape_exclusive(flag1: bool, flag2: bool)
    ensures
        sel_long(flag1, flag2) + sel_short(flag1, flag2) + sel_last_level(flag1, flag2)
            + sel_one_nibble(flag1, flag2) == 1,
        sel_long(flag1, flag2) == b2i(LeafShape::of_flags(flag1, flag2) == LeafShape::Long),
        sel_short(flag1, flag2) == b2i(LeafShape::of_flags(flag1, flag2) == LeafShape::Short),
        sel_last_level(flag1, flag2) == b2i(
            LeafShape::of_flags(flag1, flag2) == LeafShape::LastLevel,
        ),
        sel_one_nibble(flag1, flag2) == b2i(
            LeafShape::of_flags(flag1, flag2) == LeafShape::OneNibble,
        ),
{
    let a = b2i(flag1);
    let b = b2i(flag2);
    if flag1 {
        assert(a == 1);
    } else {
        assert(a == 0);
    }
    if flag2 {
        assert(b == 1);
    } else {
        assert(b == 0);
    }
    assert(a * (1 - b) + (1 - a) * b + a * b + (1 - a) * (1 - b) == 1) by (nonlinear_arith);
    assert(a * (1 - b) == if flag1 && !flag2 { 1int } else { 0int }) by (nonlinear_arith)
        requires
            a == b2i(flag1),
            b == b2i(flag2),
    ;
    assert((1 - a) * b == if !flag1 && flag2 { 1int } else { 0int }) by (nonlinear_arith)
        requires
            a == b2i(flag1),
            b == b2i(flag2),
    ;
    assert(a * b == if flag1 && flag2 { 1int } else { 0int }) by (nonlinear_arith)
        requires
            a == b2i(flag1),
            b == b2i(flag2),
    ;
    assert((1 - a) * (1 - b) == if !flag1 && !flag2 { 1int } else { 0int }) by (nonlinear_arith)
        requires
            a == b2i(flag1),
            b == b2i(flag2),
    ;
}

/// A pair of RLP cells and the byte cells that follow them. Every cell holds
/// a byte, which is all that the range table asks of it.
#[derive(Clone, Copy, Debug)]
pub struct MainCols {
    pub rlp1: u8,
    pub rlp2: u8,
    pub bytes: [u8; 32],
}

/// A running combination and the power of the challenge that the next byte
/// enters it with.
#[derive(Clone, Copy, Debug)]
pub struct Accumulator {
    pub rlc: Fe,
    pub mult: Fe,
}

/// What the first row of a branch records for the rows below it.
#[derive(Clone, Copy, Debug)]
pub struct BranchFlags {
    /// The branch does not exist in the S trie.
    pub is_s_placeholder: bool,
    /// The branch does not exist in the C trie.
    pub is_c_placeholder: bool,
    /// The nibble chosen in this branch is the high half of a key byte, so
    /// what follows starts with the low half: an odd number of nibbles.
    pub sel_odd: bool,
    /// The nibble chosen in this branch is the low half of a key byte, so
    /// what follows starts on a byte boundary: an even number of nibbles.
    pub sel_even: bool,
    /// Nibbles of the key used up to and including this branch.
    pub nibbles_count: u8,
    /// The branch comes with an extension node.
    pub is_extension: bool,
    /// The extension node holds a single nibble.
    pub is_extension_one_nibble: bool,
}

/// One row of the table.
#[derive(Clone, Copy, Debug)]
pub struct Row {
    /// The S side byte cells.
    pub s_main: MainCols,
    /// The C side byte cells.
    pub c_main: MainCols,
    /// First shape flag of a key row; "long" flag of a value row.
    pub flag1: bool,
    /// Second shape flag of a key row; "short" flag of a value row.
    pub flag2: bool,
    /// First marker cell: the modified child is empty in S (branch child
    /// rows), the S leaf is a placeholder without a branch (value rows), the
    /// nonce is long (account key rows).
    pub sel1: bool,
    /// Second marker cell: the same for C, and for the balance.
    pub sel2: bool,
    /// Combination of the leaf bytes so far, and the power that follows it.
    pub acc_s: Accumulator,
    /// Combination of the value bytes; on an account's nonce row its first
    /// cell holds the power that follows the nonce.
    pub acc_c: Accumulator,
    /// Key accumulator of the level.
    pub key: Accumulator,
    /// Key accumulator of the level above, kept in a key row.
    pub key_prev: Accumulator,
    /// What the S parent records of its modified child; stored nonce and
    /// storage root in account rows.
    pub s_mod_node_rlc: Fe,
    /// What the C parent records of its modified child; stored balance and
    /// code hash in account rows.
    pub c_mod_node_rlc: Fe,
    /// Power of the challenge that the nibbles of an extension node span.
    pub mult_diff: Fe,
    /// Set in the last row of an account leaf.
    pub is_account_leaf_in_added_branch: bool,
    /// Cleared in the rows of the first level of a proof.
    pub not_first_level: bool,
    /// Flags of a branch, held in its first row.
    pub branch: BranchFlags,
    /// Position in the new branch of the leaf that drifted into it.
    pub drifted_pos: u8,
    /// Value combination of the S leaf, copied into the C value row.
    pub value_prev: Fe,
    /// Value combination of the row's own leaf.
    pub value: Fe,
    /// Which lookup the row is open to.
    pub proof_type: u8,
}

/// The cells of a byte group with every cell zero.
pub open spec fn blank_main() -> MainCols {
    MainCols {
        rlp1: 0,
        rlp2: 0,
        bytes: vstd::array::spec_array_fill_for_copy_type::<u8, 32>(0u8),
    }
}

/// An accumulator with both cells zero.
pub open spec fn blank_accumulator() -> Accumulator {
    Accumulator { rlc: fe_zero(), mult: fe_zero() }
}

/// The row with every cell zero and every flag cleared.
pub open spec fn blank_row() -> Row {
    Row {
        s_main: blank_main(),
        c_main: blank_main(),
        flag1: false,
        flag2: false,
        sel1: false,
        sel2: false,
        acc_s: blank_accumulator(),
        acc_c: blank_accumulator(),
        key: blank_accumulator(),
        key_prev: blank_accumulator(),
        s_mod_node_rlc: fe_zero(),
        c_mod_node_rlc: fe_zero(),
        mult_diff: fe_zero(),
        is_account_leaf_in_added_branch: false,
        not_first_level: false,
        branch: BranchFlags {
            is_s_placeholder: false,
            is_c_placeholder: false,
            sel_odd: false,
            sel_even: false,
            nibbles_count: 0,
            is_extension: false,
            is_extension_one_nibble: false,
        },
        drifted_pos: 0,
        value_prev: fe_zero(),
        value: fe_zero(),
        proof_type: 0,
    }
}

/// The row `rot` positions from `offset`; a position outside the table reads
/// as the blank row.
pub open spec fn row_at(table: Seq<Row>, offset: int, rot: int) -> Row {
    if 0 <= offset + rot < table.len() {
        table[offset + rot]
    } else {
        blank_row()
    }
}

impl MainCols {
    /// The two RLP cells and the 32 byte cells, in this order.
    pub open spec fn cells(self) -> Seq<u8> {
        seq![self.rlp1, self.rlp2] + self.bytes@
    }

    /// The two RLP cells and the 32 byte cells, in this order.
    pub fn to_vec(&self) -> (v: Vec<u8>)
        ensures
            v@ == self.cells(),
    {
        let mut v: Vec<u8> = Vec::new();
        v.push(self.rlp1);
        v.push(self.rlp2);
        let mut i: usize = 0;
        while i < 32
            invariant
                i <= 32,
                v@.len() == 2 + i,
                v@[0] == self.rlp1,
                v@[1] == self.rlp2,
                forall|j: int| 0 <= j < i ==> v@[2 + j] == self.bytes@[j],
            decreases 32 - i,
        {
            v.push(self.bytes[i]);
            i = i + 1;
        }
        assert(v@ =~= self.cells());
        v
    }
}

impl Row {
    /// The row with every cell zero and every flag cleared.
    pub fn blank() -> (r: Row)
        ensures
            r == blank_row(),
    {
        let main = MainCols { rlp1: 0, rlp2: 0, bytes: [0u8;32] };
        let acc = Accumulator { rlc: Fe::zero(), mult: Fe::zero() };
        Row {
            s_main: main,
            c_main: main,
            flag1: false,
            flag2: false,
            sel1: false,
            sel2: false,
            acc_s: acc,
            acc_c: acc,
            key: acc,
            key_prev: acc,
            s_mod_node_rlc: Fe::zero(),
            c_mod_node_rlc: Fe::zero(),
            mult_diff: Fe::zero(),
            is_account_leaf_in_added_branch: false,
            not_first_level: false,
            branch: BranchFlags {
                is_s_placeholder: false,
                is_c_placeholder: false,
                sel_odd: false,
                sel_even: false,
                nibbles_count: 0,
                is_extension: false,
                is_extension_one_nibble: false,
            },
            drifted_pos: 0,
            value_prev: Fe::zero(),
            value: Fe::zero(),
            proof_type: 0,
        }
    }

    /// The 36 cells that a leaf's key may take: the S side's RLP and byte
    /// cells, then the C side's two RLP cells.
    pub open spec fn key_cells(self) -> Seq<u8> {
        self.s_main.cells() + seq![self.c_main.rlp1, self.c_main.rlp2]
    }

    /// The 36 cells that a leaf's key may take.
    pub fn key_cells_vec(&self) -> (v: Vec<u8>)
        ensures
            v@ == self.key_cells(),
    {
        let mut v: Vec<u8> = self.s_main.to_vec();
        v.push(self.c_main.rlp1);
        v.push(self.c_main.rlp2);
        assert(v@ =~= self.key_cells());
        v
    }

    /// The shape that the row's flags select.
    pub open spec fn shape(self) -> LeafShape {
        LeafShape::of_flags(self.flag1, self.flag2)
    }
}

/// The row `rot` positions from `offset`; a position outside the table reads
/// as the blank row.
pub fn read_row(table: &Vec<Row>, offset: usize, rot: i32) -> (r: Row)
    ensures
        r == row_at(table@, offset as int, rot as int),
{
    let n: usize = table.len();
    if rot >= 0 {
        let up: usize = rot as usize;
        if up < n && offset < n - up {
            table[offset + up]
        } else {
            Row::blank()
        }
    } else {
        let down: usize = (-(rot as i64)) as usize;
        if down <= offset && offset - down < n {
            table[offset - down]
        } else {
            Row::blank()
        }
    }
}

/// The running values that the assignment carries from row to row.
#[derive(Clone, Copy, Debug)]
pub struct ProofValues {
    /// Combination of the leaf's bytes so far.
    pub acc_s: Fe,
    /// Power of the challenge that the next leaf byte enters with.
    pub acc_mult_s: Fe,
    /// Combination of the value's bytes.
    pub acc_c: Fe,
    /// Power of the challenge that follows the value.
    pub acc_mult_c: Fe,
    /// Value combination of the S leaf, kept for the C value row.
    pub rlc1: Fe,
    /// Key combination of the leaf, kept for the C value row.
    pub rlc2: Fe,
}

/// The kinds of rows that a witness is made of, as its last byte tells.
#[derive(Clone, Copy, Debug, PartialEq, Eq, Structural)]
pub enum MptWitnessRowType {
    StorageLeafSKey,
    StorageLeafCKey,
    AccountLeafKeyC,
    AccountLeafKeyS,
    AccountLeafNonceBalanceS,
    AccountLeafNonceBalanceC,
    AccountLeafRootCodehashS,
    AccountLeafNeighbouringLeaf,
    AccountLeafRootCodehashC,
    StorageLeafSValue,
    StorageLeafCValue,
    NeighbouringStorageLeaf,
    AccountNonExisting,
    StorageNonExisting,
    /// Any other kind of row.
    Other,
}

/// The kind of row that a tag byte stands for.
pub open spec fn row_type_of(tag: u8) -> MptWitnessRowType {
    if tag == 2 {
        MptWitnessRowType::StorageLeafSKey
    } else if tag == 3 {
        MptWitnessRowType::StorageLeafCKey
    } else if tag == 4 {
        MptWitnessRowType::AccountLeafKeyC
    } else if tag == 6 {
        MptWitnessRowType::AccountLeafKeyS
    } else if tag == 7 {
        MptWitnessRowType::AccountLeafNonceBalanceS
    } else if tag == 8 {
        MptWitnessRowType::AccountLeafNonceBalanceC
    } else if tag == 9 {
        MptWitnessRowType::AccountLeafRootCodehashS
    } else if tag == 10 {
        MptWitnessRowType::AccountLeafNeighbouringLeaf
    } else if tag == 11 {
        MptWitnessRowType::AccountLeafRootCodehashC
    } else if tag == 13 {
        MptWitnessRowType::StorageLeafSValue
    } else if tag == 14 {
        MptWitnessRowType::StorageLeafCValue
    } else if tag == 15 {
        MptWitnessRowType::NeighbouringStorageLeaf
    } else if tag == 18 {
        MptWitnessRowType::AccountNonExisting
    } else if tag == 19 {
        MptWitnessRowType::StorageNonExisting
    } else {
        MptWitnessRowType::Other
    }
}

/// One row of a witness as it is handed in: the bytes of the S side (two
/// RLP bytes, 32 more), those of the C side, and after them the tags, of
/// which the last names the kind of row.
#[derive(Debug)]
pub struct MptWitnessRow {
    pub bytes: Vec<u8>,
    /// The row belongs to the proof of a change of a storage value. The
    /// marker is handed in beside the bytes.
    pub is_storage_mod: bool,
}

impl MptWitnessRow {
    /// The row with the given bytes.
    pub fn new(bytes: Vec<u8>) -> (row: MptWitnessRow)
        ensures
            row.bytes@ == bytes@,
            !row.is_storage_mod,
    {
        MptWitnessRow { bytes, is_storage_mod: false }
    }

    /// The byte at `index`.
    pub fn get_byte(&self, index: usize) -> (b: u8)
        requires
            index < self.bytes@.len(),
        ensures
            b == self.bytes@[index as int],
    {
        self.bytes[index]
    }

    /// The number of bytes.
    pub fn len(&self) -> (n: usize)
        ensures
            n == self.bytes@.len(),
    {
        self.bytes.len()
    }

    /// The kind of the row: what its last byte stands for. A row without bytes is
    /// of no kind that the chips know.
    pub open spec fn row_type(self) -> MptWitnessRowType {
        if self.bytes@.len() == 0 {
            MptWitnessRowType::Other
        } else {
            row_type_of(self.bytes@.last())
        }
    }

    /// The kind of the row.
    pub fn get_type(&self) -> (t: MptWitnessRowType)
        ensures
            t == self.row_type(),
    {
        let n: usize = self.bytes.len();
        if n == 0 {
            return MptWitnessRowType::Other;
        }
        let tag: u8 = self.bytes[n - 1];
        if tag == 2 {
            MptWitnessRowType::StorageLeafSKey
        } else if tag == 3 {
            MptWitnessRowType::StorageLeafCKey
        } else if tag == 4 {
            MptWitnessRowType::AccountLeafKeyC
        } else if tag == 6 {
            MptWitnessRowType::AccountLeafKeyS
        } else if tag == 7 {
            MptWitnessRowType::AccountLeafNonceBalanceS
        } else if tag == 8 {
            MptWitnessRowType::AccountLeafNonceBalanceC
        } else if tag == 9 {
            MptWitnessRowType::AccountLeafRootCodehashS
        } else if tag == 10 {
            MptWitnessRowType::AccountLeafNeighbouringLeaf
        } else if tag == 11 {
            MptWitnessRowType::AccountLeafRootCodehashC
        } else if tag == 13 {
            MptWitnessRowType::StorageLeafSValue
        } else if tag == 14 {
            MptWitnessRowType::StorageLeafCValue
        } else if tag == 15 {
            MptWitnessRowType::NeighbouringStorageLeaf
        } else if tag == 18 {
            MptWitnessRowType::AccountNonExisting
        } else if tag == 19 {
            MptWitnessRowType::StorageNonExisting
        } else {
            MptWitnessRowType::Other
        }
    }

    /// The 32 bytes of the S side after its two RLP bytes.
    pub fn s_hash_bytes(&self) -> (h: &[u8])
        requires
            34 <= self.bytes@.len(),
        ensures
            h@ == self.bytes@.subrange(2, 34),
    {
        vstd::slice::slice_subrange(self.bytes.as_slice(), 2, 34)
    }

    /// The byte cells of one side: the two RLP bytes at `from` and the 32
    /// bytes after them.
    pub fn main_cols(&self, from: usize) -> (m: MainCols)
        requires
            from + 34 <= self.bytes@.len(),
        ensures
            m.cells() == self.bytes@.subrange(from as int, from + 34),
    {
        let mut bytes: [u8; 32] = [0u8;32];
        let n: usize = self.bytes.len();
        let mut i: usize = 0;
        while i < 32
            invariant
                i <= 32,
                n == self.bytes@.len(),
                from + 34 <= n,
                forall|j: int| 0 <= j < i ==> bytes@[j] == self.bytes@[from + 2 + j],
            decreases 32 - i,
        {
            bytes[i] = self.bytes[from + 2 + i];
            i = i + 1;
        }
        let m = MainCols { rlp1: self.bytes[from], rlp2: self.bytes[from + 1], bytes };
        assert(m.cells() =~= self.bytes@.subrange(from as int, from + 34));
        m
    }

    /// The blank row with the byte cells of both sides filled from the
    /// first 68 bytes.
    pub fn to_row(&self) -> (row: Row)
        requires
            68 <= self.bytes@.len(),
        ensures
            row.s_main.cells() == self.bytes@.subrange(0, 34),
            row.c_main.cells() == self.bytes@.subrange(34, 68),
            row == (Row { s_main: row.s_main, c_main: row.c_main, ..blank_row() }),
    {
        let mut row = Row::blank();
        row.s_main = self.main_cols(0);
        row.c_main = self.main_cols(34);
        row
    }
}

} // verus!
