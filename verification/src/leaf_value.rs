//! The chip for the value row of a storage leaf, and the assignment of that row.
//!
//! The value row follows the key row of its leaf. The chip holds the row to
//! the combination of the value and of the whole leaf, holds the lengths
//! that the leaf's RLP prefixes declare against each other, and ties the
//! leaf to what stands above it: to the parent branch by its hash, or by
//! its bytes where it is too short to be hashed, and to the storage root of
//! the account where no branch stands above.

use crate::field::{fadd, fmul, Fe};
use crate::leaf_key::{is_placeholder, key_row_len};
use crate::lookup::{check_zeros_from, keccak_contains, zeros_from, KeccakEntry, KeccakTable};
use crate::rlc::{compute_acc_and_mult, compute_rlc, rlc};
use crate::witness::{
    b2i, read_row, row_at, Accumulator, LeafShape, MptWitnessRow, MptWitnessRowType, ProofValues,
    Row, ACCOUNT_LEAF_ROWS, ACCOUNT_LEAF_STORAGE_CODEHASH_C_IND,
    ACCOUNT_LEAF_STORAGE_CODEHASH_S_IND, BRANCH_ROWS_NUM, EXTENSION_ROWS_NUM, LEAF_VALUE_C_IND,
    LEAF_VALUE_S_IND, STORAGE_LEAF_ROWS,
};
use vstd::array::array_as_slice;
use vstd::prelude::*;
use vstd::slice::slice_subrange;

verus! {

/// Leaves shorter than this many bytes are kept in their parent as they
/// are; longer ones by their hash.
pub const HASH_THRESHOLD: i32 = 32;

/// The hash of the trie that holds nothing.
pub open spec fn empty_trie_hash() -> Seq<u8> {
    seq![
        86u8, 232, 31, 23, 27, 204, 85, 166, 255, 131, 69, 230, 146, 192, 248, 110, 91, 72, 224, 27,
        153, 108, 173, 192, 1, 98, 47, 181, 227, 99, 180, 33,
    ]
}

/// The hash of the trie that holds nothing.
pub fn empty_trie_hash_bytes() -> (h: [u8; 32])
    ensures
        h@ == empty_trie_hash(),
{
    let h: [u8; 32] = [
        86, 232, 31, 23, 27, 204, 85, 166, 255, 131, 69, 230, 146, 192, 248, 110, 91, 72, 224, 27,
        153, 108, 173, 192, 1, 98, 47, 181, 227, 99, 180, 33,
    ];
    assert(h@ =~= empty_trie_hash());
    h
}

/// Whether 32 bytes are the hash of the trie that holds nothing.
pub fn is_empty_trie_hash(bytes: &[u8]) -> (b: bool)
    ensures
        b == (bytes@ == empty_trie_hash()),
{
    let h: [u8; 32] = empty_trie_hash_bytes();
    if bytes.len() != 32 {
        return false;
    }
    let mut i: usize = 0;
    while i < 32
        invariant
            i <= 32,
            bytes@.len() == 32,
            h@ == empty_trie_hash(),
            forall|j: int| 0 <= j < i ==> bytes@[j] == h@[j],
        decreases 32 - i,
    {
        if bytes[i] != h[i] {
            return false;
        }
        i = i + 1;
    }
    assert(bytes@ =~= empty_trie_hash());
    true
}

/// Which side of an update the chip stands on, and with it the offsets at
/// which it finds the rows above the value row.
#[derive(Clone, Copy, Debug, PartialEq, Eq, Structural)]
pub struct LeafValueConfig {
    /// The S side is the trie before the update, the C side the trie after.
    pub is_s: bool,
}

/// The rows and flags that the chip reads around a value row.
#[derive(Clone, Copy, Debug)]
pub struct ValueContext {
    /// The value row itself.
    pub row: Row,
    /// The key row of the leaf.
    pub key_row: Row,
    /// The value row of the S leaf (the row itself on the S side).
    pub s_value_row: Row,
    /// A child row of the branch above.
    pub child: Row,
    /// The first row of the branch above.
    pub init: Row,
    /// A child row of the branch above that branch.
    pub child_above: Row,
    /// The account row that holds the storage root.
    pub root_row: Row,
    /// The account row that holds the storage root, one branch further up.
    pub root_row_above: Row,
    /// The account leaf stands right above the leaf.
    pub account_above: bool,
    /// The account leaf stands right above the branch above the leaf.
    pub account_above_branch: bool,
}

/// The named conditions of the chip, in the order in which they are tried.
#[derive(Clone, Copy, Debug, PartialEq, Eq, Structural)]
pub enum LeafValueConstraint {
    /// Exactly one of the flags "long" and "short" is set.
    ValueFlags,
    /// The value accumulator is the combination of the value.
    ValueRlc,
    /// The leaf accumulator is that of the key row carried over the value.
    LeafRlc,
    /// On the C side, the row holds the key combination of its key row.
    KeyRlcCopy,
    /// On the C side, the row holds the value combination of the S leaf.
    ValuePrev,
    /// On the C side, the row holds its own value combination once more.
    ValueCopy,
    /// The lengths that the RLP prefixes declare agree.
    RlpLength,
    /// A placeholder for the only leaf asks for the root of the empty trie.
    EmptyTrieRoot,
    /// A leaf too short to be hashed is held by its parent as it is.
    UnhashedInParent,
    /// The hash of the leaf is held by its parent.
    HashInParent,
    /// The hash of the leaf is held by the branch above the placeholder.
    HashAbovePlaceholder,
    /// The hash of the only leaf is the storage root.
    HashIsStorageRoot,
    /// The hash of the only leaf, under a placeholder, is the storage root.
    HashIsStorageRootAbovePlaceholder,
    /// The cells after the value are zero.
    ZeroPadding,
}

/// What the chip hands on for a row that it accepts.
#[derive(Clone, Copy, Debug)]
pub struct LeafValueOutput {
    /// The combination of the value.
    pub value_rlc: Fe,
    /// The combination of the whole leaf.
    pub leaf_rlc: Fe,
    /// The length of the leaf in bytes, as its prefix declares it.
    pub leaf_len: i32,
}

impl LeafValueConfig {
    /// Position of the value row among the rows of the leaf.
    pub open spec fn value_pos(self) -> int {
        if self.is_s {
            LEAF_VALUE_S_IND as int
        } else {
            LEAF_VALUE_C_IND as int
        }
    }

    /// Offset of a child row of the branch above.
    pub open spec fn branch_rot(self) -> int {
        -STORAGE_LEAF_ROWS
    }

    /// Offset of the first row of the branch above.
    pub open spec fn branch_init_rot(self) -> int {
        -self.value_pos() - BRANCH_ROWS_NUM
    }

    /// Offset of a child row of the branch above the branch above.
    pub open spec fn branch_child_prev_rot(self) -> int {
        self.branch_init_rot() - EXTENSION_ROWS_NUM - 1
    }

    /// Offset of the row right above the leaf's rows.
    pub open spec fn account_rot(self) -> int {
        -self.value_pos() - 1
    }

    /// Offset of the row right above the rows of the branch above.
    pub open spec fn account_prev_rot(self) -> int {
        self.account_rot() - BRANCH_ROWS_NUM
    }

    /// Offset of the account row that holds this side's storage root.
    pub open spec fn storage_root_rot(self) -> int {
        -self.value_pos() - ACCOUNT_LEAF_ROWS + if self.is_s {
            ACCOUNT_LEAF_STORAGE_CODEHASH_S_IND as int
        } else {
            ACCOUNT_LEAF_STORAGE_CODEHASH_C_IND as int
        }
    }

    /// Offset of that row where a branch stands between account and leaf.
    pub open spec fn storage_root_prev_rot(self) -> int {
        self.storage_root_rot() - BRANCH_ROWS_NUM
    }

    /// Offset of the value row of the S leaf.
    pub open spec fn s_value_rot(self) -> int {
        if self.is_s {
            0
        } else {
            LEAF_VALUE_S_IND - LEAF_VALUE_C_IND
        }
    }

    /// The configuration of the chip for one side of the update.
    pub fn configure(is_s: bool) -> (config: Self)
        ensures
            config.is_s == is_s,
    {
        LeafValueConfig { is_s }
    }

    fn value_pos_rot(&self) -> (pos: i32)
        ensures
            pos == self.value_pos(),
    {
        if self.is_s {
            LEAF_VALUE_S_IND
        } else {
            LEAF_VALUE_C_IND
        }
    }
}

/// The rows and flags around the value row at `offset`.
pub open spec fn value_context(table: Seq<Row>, offset: int, cfg: LeafValueConfig) -> ValueContext {
    ValueContext {
        row: row_at(table, offset, 0),
        key_row: row_at(table, offset, -1),
        s_value_row: row_at(table, offset, cfg.s_value_rot()),
        child: row_at(table, offset, cfg.branch_rot()),
        init: row_at(table, offset, cfg.branch_init_rot()),
        child_above: row_at(table, offset, cfg.branch_child_prev_rot()),
        root_row: row_at(table, offset, cfg.storage_root_rot()),
        root_row_above: row_at(table, offset, cfg.storage_root_prev_rot()),
        account_above: row_at(table, offset, cfg.account_rot()).is_account_leaf_in_added_branch,
        account_above_branch: row_at(
            table,
            offset,
            cfg.account_prev_rot(),
        ).is_account_leaf_in_added_branch,
    }
}

/// The marker cell of a row for the given side.
pub open spec fn sel_of(row: Row, is_s: bool) -> bool {
    if is_s {
        row.sel1
    } else {
        row.sel2
    }
}

/// What a branch child row records of the modified child on the given side.
pub open spec fn mod_node_rlc(row: Row, is_s: bool) -> int {
    if is_s {
        row.s_mod_node_rlc@
    } else {
        row.c_mod_node_rlc@
    }
}

/// The length of a leaf in bytes, as the prefix in its key row declares it:
/// a long leaf has its length in the second cell and two cells before the
/// payload, any other has the length on top of 192 in its first cell.
pub open spec fn leaf_len(key_row: Row) -> int {
    if key_row.shape() == LeafShape::Long {
        key_row.s_main.rlp2 + 2
    } else {
        key_row.s_main.rlp1 - 192 + 1
    }
}

/// The bytes that the leaf's prefix leaves for the value: the declared
/// length of the leaf's payload less the key and the cell that holds the
/// key's length. A leaf in the last level and a one-nibble leaf hold one
/// cell in place of a key.
pub open spec fn value_room(key_row: Row) -> int {
    match key_row.shape() {
        LeafShape::Short => key_row.s_main.rlp1 - 192 - (key_row.s_main.rlp2 - 128) - 1,
        LeafShape::Long => key_row.s_main.rlp2 - (key_row.s_main.bytes@[0] - 128) - 1,
        _ => key_row.s_main.rlp1 - 192 - 1,
    }
}

/// The bytes that the value takes: one where it is short; where it is
/// long, those that its second cell declares and the two cells before
/// them.
pub open spec fn value_len(row: Row) -> int {
    if row.flag2 {
        1
    } else {
        row.s_main.rlp2 - 128 + 1 + 1
    }
}

/// The cells of the value that enter the value accumulator: the first cell
/// of a short value, the 32 byte cells of a long one.
pub open spec fn value_content(row: Row) -> Seq<u8> {
    if row.flag2 {
        seq![row.s_main.rlp1]
    } else {
        row.s_main.bytes@
    }
}

/// The cells of the value row that enter the leaf accumulator: the first
/// cell of a short value, all 34 cells of a long one.
pub open spec fn value_cells(row: Row) -> Seq<u8> {
    if row.flag2 {
        seq![row.s_main.rlp1]
    } else {
        row.s_main.cells()
    }
}

/// The combination of the whole leaf: that of the key row, and the value
/// row's cells under the power that the key row ends with.
pub open spec fn leaf_rlc_value(key_row: Row, cells: Seq<u8>, r: int) -> int {
    fadd(key_row.acc_s.rlc@, fmul(key_row.acc_s.mult@, rlc(cells, r)))
}

/// How many of the two marks of a placeholder leaf are set: that the leaf
/// is a placeholder without a branch, and that the modified child of the
/// branch above is empty (where a branch stands above).
pub open spec fn placeholder_marks(ctx: ValueContext, is_s: bool) -> int {
    b2i(sel_of(ctx.row, is_s)) + b2i(!ctx.account_above && sel_of(ctx.child, is_s))
}

/// Whether one named condition holds of the rows in `ctx`.
pub open spec fn holds(
    c: LeafValueConstraint,
    ctx: ValueContext,
    keccak: Seq<KeccakEntry>,
    is_s: bool,
    r: int,
) -> bool {
    let row = ctx.row;
    let key_row = ctx.key_row;
    let len = leaf_len(key_row);
    let under_branch = !ctx.account_above && row.not_first_level && !sel_of(ctx.child, is_s);
    let under_placeholder = is_placeholder(ctx.init, is_s);
    match c {
        LeafValueConstraint::ValueFlags => row.flag1 != row.flag2,
        LeafValueConstraint::ValueRlc => row.acc_c.rlc@ == rlc(value_content(row), r),
        LeafValueConstraint::LeafRlc => row.acc_s.rlc@ == leaf_rlc_value(
            key_row,
            value_cells(row),
            r,
        ),
        LeafValueConstraint::KeyRlcCopy => !is_s ==> row.key.mult@ == key_row.key.rlc@,
        LeafValueConstraint::ValuePrev => !is_s ==> row.value_prev@ == ctx.s_value_row.acc_c.rlc@,
        LeafValueConstraint::ValueCopy => !is_s ==> row.value@ == row.acc_c.rlc@,
        LeafValueConstraint::RlpLength => placeholder_marks(ctx, is_s) != 1 ==> value_room(key_row)
            == value_len(row),
        LeafValueConstraint::EmptyTrieRoot => ctx.account_above && sel_of(row, is_s)
            ==> ctx.root_row.s_main.bytes@ == empty_trie_hash(),
        LeafValueConstraint::UnhashedInParent => under_branch && !under_placeholder && len < HASH_THRESHOLD
            ==> row.acc_s.rlc@ == mod_node_rlc(ctx.child, is_s),
        LeafValueConstraint::HashInParent => under_branch && !under_placeholder && len >= HASH_THRESHOLD
            ==> keccak_contains(keccak, row.acc_s.rlc@, len, mod_node_rlc(ctx.child, is_s)),
        LeafValueConstraint::HashAbovePlaceholder => under_branch && under_placeholder
            && !ctx.account_above_branch ==> keccak_contains(
            keccak,
            leaf_rlc_value(key_row, row.s_main.cells(), r),
            len,
            mod_node_rlc(ctx.child_above, is_s),
        ),
        LeafValueConstraint::HashIsStorageRoot => row.not_first_level && ctx.account_above
            && !sel_of(row, is_s) ==> keccak_contains(
            keccak,
            row.acc_s.rlc@,
            len,
            rlc(ctx.root_row.s_main.bytes@, r),
        ),
        LeafValueConstraint::HashIsStorageRootAbovePlaceholder => row.not_first_level
            && !ctx.account_above && ctx.account_above_branch && under_placeholder
            ==> keccak_contains(
            keccak,
            row.acc_s.rlc@,
            len,
            rlc(ctx.root_row_above.s_main.bytes@, r),
        ),
        LeafValueConstraint::ZeroPadding => zeros_from(
            row.s_main.bytes@,
            if sel_of(ctx.child, is_s) && !ctx.account_above {
                0
            } else {
                row.s_main.rlp2 - 128
            },
        ),
    }
}

/// The first named condition, in the order of `LeafValueConstraint`, that
/// fails of the rows in `ctx`.
pub open spec fn first_violation(
    ctx: ValueContext,
    keccak: Seq<KeccakEntry>,
    is_s: bool,
    r: int,
) -> Option<LeafValueConstraint> {
    if !holds(LeafValueConstraint::ValueFlags, ctx, keccak, is_s, r) {
        Some(LeafValueConstraint::ValueFlags)
    } else if !holds(LeafValueConstraint::ValueRlc, ctx, keccak, is_s, r) {
        Some(LeafValueConstraint::ValueRlc)
    } else if !holds(LeafValueConstraint::LeafRlc, ctx, keccak, is_s, r) {
        Some(LeafValueConstraint::LeafRlc)
    } else if !holds(LeafValueConstraint::KeyRlcCopy, ctx, keccak, is_s, r) {
        Some(LeafValueConstraint::KeyRlcCopy)
    } else if !holds(LeafValueConstraint::ValuePrev, ctx, keccak, is_s, r) {
        Some(LeafValueConstraint::ValuePrev)
    } else if !holds(LeafValueConstraint::ValueCopy, ctx, keccak, is_s, r) {
        Some(LeafValueConstraint::ValueCopy)
    } else if !holds(LeafValueConstraint::RlpLength, ctx, keccak, is_s, r) {
        Some(LeafValueConstraint::RlpLength)
    } else if !holds(LeafValueConstraint::EmptyTrieRoot, ctx, keccak, is_s, r) {
        Some(LeafValueConstraint::EmptyTrieRoot)
    } else if !holds(LeafValueConstraint::UnhashedInParent, ctx, keccak, is_s, r) {
        Some(LeafValueConstraint::UnhashedInParent)
    } else if !holds(LeafValueConstraint::HashInParent, ctx, keccak, is_s, r) {
        Some(LeafValueConstraint::HashInParent)
    } else if !holds(LeafValueConstraint::HashAbovePlaceholder, ctx, keccak, is_s, r) {
        Some(LeafValueConstraint::HashAbovePlaceholder)
    } else if !holds(LeafValueConstraint::HashIsStorageRoot, ctx, keccak, is_s, r) {
        Some(LeafValueConstraint::HashIsStorageRoot)
    } else if !holds(LeafValueConstraint::HashIsStorageRootAbovePlaceholder, ctx, keccak, is_s, r) {
        Some(LeafValueConstraint::HashIsStorageRootAbovePlaceholder)
    } else if !holds(LeafValueConstraint::ZeroPadding, ctx, keccak, is_s, r) {
        Some(LeafValueConstraint::ZeroPadding)
    } else {
        None
    }
}

/// Whether the chip accepts the value row at `offset`: every named
/// condition holds.
pub open spec fn satisfied(
    table: Seq<Row>,
    keccak: Seq<KeccakEntry>,
    offset: int,
    cfg: LeafValueConfig,
    r: int,
) -> bool {
    forall|c: LeafValueConstraint| holds(c, value_context(table, offset, cfg), keccak, cfg.is_s, r)
}

/// The chip accepts a row exactly when no named condition fails of it.
pub proof fn lemma_satisfied_iff_no_violation(
    table: Seq<Row>,
    keccak: Seq<KeccakEntry>,
    offset: int,
    cfg: LeafValueConfig,
    r: int,
)
    ensures
        satisfied(table, keccak, offset, cfg, r) <==> first_violation(
            value_context(table, offset, cfg),
            keccak,
            cfg.is_s,
            r,
        ).is_none(),
        first_violation(value_context(table, offset, cfg), keccak, cfg.is_s, r) matches Some(c)
            ==> !holds(c, value_context(table, offset, cfg), keccak, cfg.is_s, r),
{
    let ctx = value_context(table, offset, cfg);
    if first_violation(ctx, keccak, cfg.is_s, r).is_none() {
        assert forall|c: LeafValueConstraint| holds(c, ctx, keccak, cfg.is_s, r) by {
            match c {
                LeafValueConstraint::ValueFlags => {},
                LeafValueConstraint::ValueRlc => {},
                LeafValueConstraint::LeafRlc => {},
                LeafValueConstraint::KeyRlcCopy => {},
                LeafValueConstraint::ValuePrev => {},
                LeafValueConstraint::ValueCopy => {},
                LeafValueConstraint::RlpLength => {},
                LeafValueConstraint::EmptyTrieRoot => {},
                LeafValueConstraint::UnhashedInParent => {},
                LeafValueConstraint::HashInParent => {},
                LeafValueConstraint::HashAbovePlaceholder => {},
                LeafValueConstraint::HashIsStorageRoot => {},
                LeafValueConstraint::HashIsStorageRootAbovePlaceholder => {},
                LeafValueConstraint::ZeroPadding => {},
            }
        }
    }
}

/// The marker cell of a row for the given side.
pub fn marker(row: &Row, is_s: bool) -> (b: bool)
    ensures
        b == sel_of(*row, is_s),
{
    if is_s {
        row.sel1
    } else {
        row.sel2
    }
}

/// What a branch child row records of the modified child on the given side.
pub fn modified_child(row: &Row, is_s: bool) -> (v: Fe)
    ensures
        v@ == mod_node_rlc(*row, is_s),
{
    if is_s {
        row.s_mod_node_rlc
    } else {
        row.c_mod_node_rlc
    }
}

/// The length of a leaf in bytes, as the prefix in its key row declares it.
pub fn declared_leaf_len(key_row: &Row) -> (len: i32)
    ensures
        len == leaf_len(*key_row),
{
    if key_row.flag1 && !key_row.flag2 {
        key_row.s_main.rlp2 as i32 + 2
    } else {
        key_row.s_main.rlp1 as i32 - 192 + 1
    }
}

/// The bytes that the leaf's prefix leaves for the value.
pub fn declared_value_room(key_row: &Row) -> (room: i32)
    ensures
        room == value_room(*key_row),
{
    match LeafShape::from_flags(key_row.flag1, key_row.flag2) {
        LeafShape::Short => key_row.s_main.rlp1 as i32 - 192 - (key_row.s_main.rlp2 as i32 - 128)
            - 1,
        LeafShape::Long => key_row.s_main.rlp2 as i32 - (key_row.s_main.bytes[0] as i32 - 128) - 1,
        _ => key_row.s_main.rlp1 as i32 - 192 - 1,
    }
}

/// The combination of the cells of the value that enter the value
/// accumulator.
pub fn compute_value_rlc(row: &Row, r: Fe) -> (out: Fe)
    ensures
        out@ == rlc(value_content(*row), r@),
{
    if row.flag2 {
        let one: [u8; 1] = [row.s_main.rlp1];
        assert(one@ =~= seq![row.s_main.rlp1]);
        compute_rlc(array_as_slice(&one), r)
    } else {
        compute_rlc(array_as_slice(&row.s_main.bytes), r)
    }
}

/// The combination of the whole leaf from its key row and the cells of its
/// value row: the first cell alone where `first_only` holds, else all 34.
pub fn compute_leaf_rlc(key_row: &Row, row: &Row, first_only: bool, r: Fe) -> (out: Fe)
    ensures
        out@ == leaf_rlc_value(
            *key_row,
            if first_only {
                seq![row.s_main.rlp1]
            } else {
                row.s_main.cells()
            },
            r@,
        ),
{
    let tail: Fe = if first_only {
        let one: [u8; 1] = [row.s_main.rlp1];
        assert(one@ =~= seq![row.s_main.rlp1]);
        compute_rlc(array_as_slice(&one), r)
    } else {
        let cells: Vec<u8> = row.s_main.to_vec();
        compute_rlc(cells.as_slice(), r)
    };
    key_row.acc_s.rlc.add(key_row.acc_s.mult.mul(tail))
}

impl LeafValueConfig {
    /// The rows and flags around the value row at `offset`.
    pub fn gather(&self, table: &Vec<Row>, offset: usize) -> (ctx: ValueContext)
        ensures
            ctx == value_context(table@, offset as int, *self),
    {
        let pos: i32 = self.value_pos_rot();
        let root: i32 = -pos - ACCOUNT_LEAF_ROWS + if self.is_s {
            ACCOUNT_LEAF_STORAGE_CODEHASH_S_IND
        } else {
            ACCOUNT_LEAF_STORAGE_CODEHASH_C_IND
        };
        let s_value: i32 = if self.is_s {
            0
        } else {
            LEAF_VALUE_S_IND - LEAF_VALUE_C_IND
        };
        let init: i32 = -pos - BRANCH_ROWS_NUM;
        let account: i32 = -pos - 1;
        ValueContext {
            row: read_row(table, offset, 0),
            key_row: read_row(table, offset, -1),
            s_value_row: read_row(table, offset, s_value),
            child: read_row(table, offset, -STORAGE_LEAF_ROWS),
            init: read_row(table, offset, init),
            child_above: read_row(table, offset, init - EXTENSION_ROWS_NUM - 1),
            root_row: read_row(table, offset, root),
            root_row_above: read_row(table, offset, root - BRANCH_ROWS_NUM),
            account_above: read_row(table, offset, account).is_account_leaf_in_added_branch,
            account_above_branch: read_row(
                table,
                offset,
                account - BRANCH_ROWS_NUM,
            ).is_account_leaf_in_added_branch,
        }
    }

    /// Holds the value row at `offset` to the chip. An accepted row gives
    /// the combination of its value, the combination of its leaf and the
    /// leaf's declared length; a rejected row gives the first condition
    /// that fails.
    pub fn check(&self, table: &Vec<Row>, keccak: &KeccakTable, offset: usize, r: Fe) -> (res:
        Result<LeafValueOutput, LeafValueConstraint>)
        ensures
            res.is_ok() <==> satisfied(table@, keccak.entries@, offset as int, *self, r@),
            res matches Err(c) ==> first_violation(
                value_context(table@, offset as int, *self),
                keccak.entries@,
                self.is_s,
                r@,
            ) == Some(c),
            res matches Ok(out) ==> {
                let ctx = value_context(table@, offset as int, *self);
                &&& out.value_rlc == ctx.row.acc_c.rlc
                &&& out.value_rlc@ == rlc(value_content(ctx.row), r@)
                &&& out.leaf_rlc == ctx.row.acc_s.rlc
                &&& out.leaf_rlc@ == leaf_rlc_value(ctx.key_row, value_cells(ctx.row), r@)
                &&& out.leaf_len == leaf_len(ctx.key_row)
            },
    {
        let is_s: bool = self.is_s;
        let ctx: ValueContext = self.gather(table, offset);
        proof {
            lemma_satisfied_iff_no_violation(table@, keccak.entries@, offset as int, *self, r@);
            assert(holds(LeafValueConstraint::ValueRlc, ctx, keccak.entries@, is_s, r@)
                ==> ctx.row.acc_c.rlc@ == rlc(value_content(ctx.row), r@));
            assert(holds(LeafValueConstraint::LeafRlc, ctx, keccak.entries@, is_s, r@)
                ==> ctx.row.acc_s.rlc@ == leaf_rlc_value(ctx.key_row, value_cells(ctx.row), r@));
        }
        let row: Row = ctx.row;
        let key_row: Row = ctx.key_row;
        if row.flag1 == row.flag2 {
            return Err(LeafValueConstraint::ValueFlags);
        }
        if !compute_value_rlc(&row, r).eq_fe(row.acc_c.rlc) {
            return Err(LeafValueConstraint::ValueRlc);
        }
        if !compute_leaf_rlc(&key_row, &row, row.flag2, r).eq_fe(row.acc_s.rlc) {
            return Err(LeafValueConstraint::LeafRlc);
        }
        if !is_s {
            if !row.key.mult.eq_fe(key_row.key.rlc) {
                return Err(LeafValueConstraint::KeyRlcCopy);
            }
            if !row.value_prev.eq_fe(ctx.s_value_row.acc_c.rlc) {
                return Err(LeafValueConstraint::ValuePrev);
            }
            if !row.value.eq_fe(row.acc_c.rlc) {
                return Err(LeafValueConstraint::ValueCopy);
            }
        }
        let without_branch: bool = marker(&row, is_s);
        let empty: bool = marker(&ctx.child, is_s);
        let marks: u8 = if without_branch {
            1
        } else {
            0
        } + if !ctx.account_above && empty {
            1u8
        } else {
            0u8
        };
        let value_len: i32 = if row.flag2 {
            1
        } else {
            row.s_main.rlp2 as i32 - 128 + 1 + 1
        };
        if marks != 1 && declared_value_room(&key_row) != value_len {
            return Err(LeafValueConstraint::RlpLength);
        }
        if ctx.account_above && without_branch && !is_empty_trie_hash(
            array_as_slice(&ctx.root_row.s_main.bytes),
        ) {
            return Err(LeafValueConstraint::EmptyTrieRoot);
        }
        let len: i32 = declared_leaf_len(&key_row);
        let under_branch: bool = !ctx.account_above && row.not_first_level && !empty;
        let under_placeholder: bool = if is_s {
            ctx.init.branch.is_s_placeholder
        } else {
            ctx.init.branch.is_c_placeholder
        };
        if under_branch && !under_placeholder && len < HASH_THRESHOLD && !row.acc_s.rlc.eq_fe(
            modified_child(&ctx.child, is_s),
        ) {
            return Err(LeafValueConstraint::UnhashedInParent);
        }
        if under_branch && !under_placeholder && len >= HASH_THRESHOLD && !keccak.lookup(
            row.acc_s.rlc,
            len as i64,
            modified_child(&ctx.child, is_s),
        ) {
            return Err(LeafValueConstraint::HashInParent);
        }
        if under_branch && under_placeholder && !ctx.account_above_branch && !keccak.lookup(
            compute_leaf_rlc(&key_row, &row, false, r),
            len as i64,
            modified_child(&ctx.child_above, is_s),
        ) {
            return Err(LeafValueConstraint::HashAbovePlaceholder);
        }
        if row.not_first_level && ctx.account_above && !without_branch && !keccak.lookup(
            row.acc_s.rlc,
            len as i64,
            compute_rlc(array_as_slice(&ctx.root_row.s_main.bytes), r),
        ) {
            return Err(LeafValueConstraint::HashIsStorageRoot);
        }
        if row.not_first_level && !ctx.account_above && ctx.account_above_branch
            && under_placeholder && !keccak.lookup(
            row.acc_s.rlc,
            len as i64,
            compute_rlc(array_as_slice(&ctx.root_row_above.s_main.bytes), r),
        ) {
            return Err(LeafValueConstraint::HashIsStorageRootAbovePlaceholder);
        }
        let from: i64 = if empty && !ctx.account_above {
            0
        } else {
            row.s_main.rlp2 as i64 - 128
        };
        if !check_zeros_from(array_as_slice(&row.s_main.bytes), from) {
            return Err(LeafValueConstraint::ZeroPadding);
        }
        Ok(LeafValueOutput { value_rlc: row.acc_c.rlc, leaf_rlc: row.acc_s.rlc, leaf_len: len })
    }
}

/// Whether the value of a leaf takes more than one byte, as the first three
/// bytes of the leaf's key row tell: the bytes that the declared length
/// leaves after the key are more than one.
pub open spec fn value_is_long(b0: u8, b1: u8, b2: u8) -> bool {
    if b0 == 248 {
        b1 - (b2 - 128) - 1 > 1
    } else if b1 < 128 {
        b0 - 192 - 1 > 1
    } else {
        b0 - 192 - (b1 - 128) - 1 > 1
    }
}

/// Whether the value of a leaf takes more than one byte, as the first three
/// bytes of the leaf's key row tell.
pub fn is_long_value(b0: u8, b1: u8, b2: u8) -> (long: bool)
    ensures
        long == value_is_long(b0, b1, b2),
{
    let b0: i32 = b0 as i32;
    let b1: i32 = b1 as i32;
    let b2: i32 = b2 as i32;
    if b0 == 248 {
        b1 - (b2 - 128) - 1 > 1
    } else if b1 < 128 {
        b0 - 192 - 1 > 1
    } else {
        b0 - 192 - (b1 - 128) - 1 > 1
    }
}

/// Whether a witness row is the account row of a storage root, of the kind
/// `kind`, that holds the root of the empty trie.
pub open spec fn holds_empty_root(row: MptWitnessRow, kind: MptWitnessRowType) -> bool {
    row.row_type() == kind && row.bytes@.len() >= 34 && row.bytes@.subrange(2, 34)
        == empty_trie_hash()
}

/// The account row kind that holds the storage root of the given side.
pub open spec fn root_kind(is_s: bool) -> MptWitnessRowType {
    if is_s {
        MptWitnessRowType::AccountLeafRootCodehashS
    } else {
        MptWitnessRowType::AccountLeafRootCodehashC
    }
}

/// How many rows above the value row the account row with this side's
/// storage root stands, where the leaf stands right under the account.
pub open spec fn root_distance(is_s: bool) -> int {
    -(LeafValueConfig { is_s }).storage_root_rot()
}

/// The value row after its assignment: the flags tell whether the value is
/// long, the accumulators are the running ones, the marker of the side is
/// set for a placeholder under an empty root, and on the C side the row
/// takes the key combination and the S value, and is opened to the storage
/// lookup where the proof is one of a storage change.
pub open spec fn assigned_row(
    before: Row,
    is_s: bool,
    long: bool,
    empty_root: bool,
    storage_mod: bool,
    pv_before: ProofValues,
    pv: ProofValues,
) -> Row {
    Row {
        flag1: long,
        flag2: !long,
        sel1: before.sel1 || (is_s && empty_root),
        sel2: before.sel2 || (!is_s && empty_root),
        acc_s: Accumulator { rlc: pv.acc_s, mult: pv.acc_mult_s },
        acc_c: Accumulator { rlc: pv.acc_c, mult: crate::field::fe_zero() },
        key: if is_s {
            before.key
        } else {
            Accumulator { rlc: before.key.rlc, mult: pv_before.rlc2 }
        },
        value_prev: if is_s {
            before.value_prev
        } else {
            pv_before.rlc1
        },
        value: pv.acc_c,
        proof_type: if !is_s && storage_mod {
            6
        } else {
            before.proof_type
        },
        ..before
    }
}

impl LeafValueConfig {
    /// Assigns the value row at `offset` from the witness. The leaf
    /// accumulator goes on over the row's first 34 bytes; the value
    /// accumulator starts anew and takes 34 bytes, from the third on where
    /// the value is long.
    pub fn assign(
        &self,
        region: &mut Vec<Row>,
        witness: &Vec<MptWitnessRow>,
        pv: &mut ProofValues,
        offset: usize,
        r: Fe,
    )
        requires
            root_distance(self.is_s) <= offset < witness@.len(),
            offset < old(region)@.len(),
            witness@[offset - 1].bytes@.len() >= 3,
            witness@[offset as int].bytes@.len() >= if value_is_long(
                witness@[offset - 1].bytes@[0],
                witness@[offset - 1].bytes@[1],
                witness@[offset - 1].bytes@[2],
            ) {
                36int
            } else {
                34int
            },
            witness@[offset - root_distance(self.is_s)].row_type() == root_kind(self.is_s)
                ==> witness@[offset - root_distance(self.is_s)].bytes@.len() >= 34,
        ensures
            final(pv).acc_s@ == fadd(
                old(pv).acc_s@,
                fmul(old(pv).acc_mult_s@, rlc(witness@[offset as int].bytes@.subrange(0, 34), r@)),
            ),
            final(pv).acc_mult_s@ == fmul(old(pv).acc_mult_s@, crate::field::fpow(r@, 34)),
            final(pv).acc_c@ == rlc(
                witness@[offset as int].bytes@.subrange(
                    if value_is_long(
                        witness@[offset - 1].bytes@[0],
                        witness@[offset - 1].bytes@[1],
                        witness@[offset - 1].bytes@[2],
                    ) {
                        2
                    } else {
                        0
                    },
                    if value_is_long(
                        witness@[offset - 1].bytes@[0],
                        witness@[offset - 1].bytes@[1],
                        witness@[offset - 1].bytes@[2],
                    ) {
                        36
                    } else {
                        34
                    },
                ),
                r@,
            ),
            final(pv).acc_mult_c@ == crate::field::fpow(r@, 34),
            final(pv).rlc1 == if self.is_s {
                final(pv).acc_c
            } else {
                old(pv).rlc1
            },
            final(pv).rlc2 == old(pv).rlc2,
            final(region)@ == old(region)@.update(
                offset as int,
                assigned_row(
                    old(region)@[offset as int],
                    self.is_s,
                    value_is_long(
                        witness@[offset - 1].bytes@[0],
                        witness@[offset - 1].bytes@[1],
                        witness@[offset - 1].bytes@[2],
                    ),
                    holds_empty_root(
                        witness@[offset - root_distance(self.is_s)],
                        root_kind(self.is_s),
                    ),
                    witness@[offset as int].is_storage_mod,
                    *old(pv),
                    *final(pv),
                ),
            ),
    {
        let ghost pv0 = *pv;
        let row_prev: &MptWitnessRow = &witness[offset - 1];
        let row: &MptWitnessRow = &witness[offset];
        let is_long: bool = is_long_value(
            row_prev.get_byte(0),
            row_prev.get_byte(1),
            row_prev.get_byte(2),
        );
        let mut acc_s: Fe = pv.acc_s;
        let mut acc_mult_s: Fe = pv.acc_mult_s;
        compute_acc_and_mult(row.bytes.as_slice(), &mut acc_s, &mut acc_mult_s, 0, 34, r);
        let mut acc_c: Fe = Fe::zero();
        let mut acc_mult_c: Fe = Fe::one();
        let start: usize = if is_long {
            2
        } else {
            0
        };
        compute_acc_and_mult(row.bytes.as_slice(), &mut acc_c, &mut acc_mult_c, start, 34, r);
        proof {
            let seg = row.bytes@.subrange(start as int, start + 34);
            crate::rlc::lemma_rlc_residue(seg, r@, seg.len());
            crate::algebra::lemma_neutral(rlc(seg, r@));
            crate::algebra::lemma_fpow_residue(r@, 34);
            crate::algebra::lemma_neutral(crate::field::fpow(r@, 34));
        }
        pv.acc_s = acc_s;
        pv.acc_mult_s = acc_mult_s;
        pv.acc_c = acc_c;
        pv.acc_mult_c = acc_mult_c;
        let distance: usize = if self.is_s {
            4
        } else {
            5
        };
        assert(distance == root_distance(self.is_s));
        let root_row: &MptWitnessRow = &witness[offset - distance];
        let kind: MptWitnessRowType = if self.is_s {
            MptWitnessRowType::AccountLeafRootCodehashS
        } else {
            MptWitnessRowType::AccountLeafRootCodehashC
        };
        let empty_root: bool = root_row.get_type() == kind && is_empty_trie_hash(
            root_row.s_hash_bytes(),
        );
        let mut out: Row = region[offset];
        out.flag1 = is_long;
        out.flag2 = !is_long;
        if self.is_s {
            pv.rlc1 = pv.acc_c;
            if empty_root {
                out.sel1 = true;
            }
        } else {
            out.key.mult = pv.rlc2;
            out.value_prev = pv.rlc1;
            if empty_root {
                out.sel2 = true;
            }
        }
        out.acc_s = Accumulator { rlc: pv.acc_s, mult: pv.acc_mult_s };
        out.acc_c = Accumulator { rlc: pv.acc_c, mult: Fe::zero() };
        out.value = pv.acc_c;
        if !self.is_s && row.is_storage_mod {
            out.proof_type = 6;
        }
        region.set(offset, out);
    }
}

/// A leaf too short to be hashed, under a branch of its own side: the chip
/// accepts its value row only where the parent holds the combination of the
/// leaf itself, and whether it accepts does not depend on what the hash
/// table holds.
pub proof fn lemma_unhashed_threshold(
    table: Seq<Row>,
    keccak: Seq<KeccakEntry>,
    other: Seq<KeccakEntry>,
    offset: int,
    cfg: LeafValueConfig,
    r: int,
)
    requires
        ({
            let ctx = value_context(table, offset, cfg);
            &&& !ctx.account_above
            &&& ctx.row.not_first_level
            &&& !sel_of(ctx.child, cfg.is_s)
            &&& !is_placeholder(ctx.init, cfg.is_s)
            &&& leaf_len(ctx.key_row) < HASH_THRESHOLD
        }),
    ensures
        satisfied(table, keccak, offset, cfg, r) ==> row_at(table, offset, 0).acc_s.rlc@
            == mod_node_rlc(row_at(table, offset, cfg.branch_rot()), cfg.is_s),
        satisfied(table, keccak, offset, cfg, r) == satisfied(table, other, offset, cfg, r),
{
    let ctx = value_context(table, offset, cfg);
    if satisfied(table, keccak, offset, cfg, r) {
        assert(holds(LeafValueConstraint::UnhashedInParent, ctx, keccak, cfg.is_s, r));
    }
    assert forall|c: LeafValueConstraint|
        holds(c, ctx, keccak, cfg.is_s, r) == holds(c, ctx, other, cfg.is_s, r) by {
        match c {
            LeafValueConstraint::ValueFlags => {},
            LeafValueConstraint::ValueRlc => {},
            LeafValueConstraint::LeafRlc => {},
            LeafValueConstraint::KeyRlcCopy => {},
            LeafValueConstraint::ValuePrev => {},
            LeafValueConstraint::ValueCopy => {},
            LeafValueConstraint::RlpLength => {},
            LeafValueConstraint::EmptyTrieRoot => {},
            LeafValueConstraint::UnhashedInParent => {},
            LeafValueConstraint::HashInParent => {},
            LeafValueConstraint::HashAbovePlaceholder => {},
            LeafValueConstraint::HashIsStorageRoot => {},
            LeafValueConstraint::HashIsStorageRootAbovePlaceholder => {},
            LeafValueConstraint::ZeroPadding => {},
        }
    }
}

/// A leaf of 32 bytes or more, under a branch of its own side: the chip
/// accepts its value row only where the hash table holds the leaf's
/// combination with the leaf's length and with what the parent records of
/// its modified child.
pub proof fn lemma_hashed_in_parent(
    table: Seq<Row>,
    keccak: Seq<KeccakEntry>,
    offset: int,
    cfg: LeafValueConfig,
    r: int,
)
    requires
        ({
            let ctx = value_context(table, offset, cfg);
            &&& !ctx.account_above
            &&& ctx.row.not_first_level
            &&& !sel_of(ctx.child, cfg.is_s)
            &&& !is_placeholder(ctx.init, cfg.is_s)
            &&& leaf_len(ctx.key_row) >= HASH_THRESHOLD
        }),
        satisfied(table, keccak, offset, cfg, r),
    ensures
        keccak_contains(
            keccak,
            row_at(table, offset, 0).acc_s.rlc@,
            leaf_len(row_at(table, offset, -1)),
            mod_node_rlc(row_at(table, offset, cfg.branch_rot()), cfg.is_s),
        ),
{
    let ctx = value_context(table, offset, cfg);
    assert(holds(LeafValueConstraint::HashInParent, ctx, keccak, cfg.is_s, r));
}

/// Where a storage trie is left without an entry, its only leaf is a
/// placeholder right under the account: the chip accepts the value row
/// only where the account's storage root is the hash of the empty trie.
pub proof fn lemma_empty_trie_after_delete(
    table: Seq<Row>,
    keccak: Seq<KeccakEntry>,
    offset: int,
    cfg: LeafValueConfig,
    r: int,
)
    requires
        row_at(table, offset, cfg.account_rot()).is_account_leaf_in_added_branch,
        sel_of(row_at(table, offset, 0), cfg.is_s),
        satisfied(table, keccak, offset, cfg, r),
    ensures
        row_at(table, offset, cfg.storage_root_rot()).s_main.bytes@ == empty_trie_hash(),
{
    let ctx = value_context(table, offset, cfg);
    assert(holds(LeafValueConstraint::EmptyTrieRoot, ctx, keccak, cfg.is_s, r));
}

/// The leaf accumulator of an accepted value row is the combination of the
/// leaf's own bytes: where the key row holds the combination of its cells
/// and ends with the power of its `nk` bytes, and the cells after the
/// `nk` bytes of the key row and after the `nv` bytes of the value row are
/// zero, the leaf accumulator is the combination of the `nk` bytes followed
/// by the `nv` bytes.
pub proof fn lemma_leaf_rlc_of_bytes(key_row: Row, row: Row, r: int, nk: nat, nv: nat)
    requires
        nk <= 36,
        nv <= value_cells(row).len(),
        key_row.acc_s.rlc@ == rlc(key_row.key_cells(), r),
        key_row.acc_s.mult@ == crate::field::fpow(r, nk),
        zeros_from(key_row.key_cells(), nk as int),
        zeros_from(value_cells(row), nv as int),
        row.acc_s.rlc@ == leaf_rlc_value(key_row, value_cells(row), r),
    ensures
        row.acc_s.rlc@ == rlc(
            key_row.key_cells().subrange(0, nk as int) + value_cells(row).subrange(0, nv as int),
            r,
        ),
{
    let k = key_row.key_cells();
    let v = value_cells(row);
    assert(k.len() == 36);
    crate::rlc::lemma_rlc_zero_tail(k, r, nk);
    crate::rlc::lemma_rlc_zero_tail(v, r, nv);
    crate::rlc::lemma_rlc_concat(k.subrange(0, nk as int), v.subrange(0, nv as int), r);
}

/// The assignment leaves a value row that meets the chip's conditions on
/// the flags and on both accumulators: where the row holds the first 34
/// bytes of its witness row, the two bytes after them are zero, a short
/// value is followed by zeros alone, and the running accumulator comes from
/// the key row.
pub proof fn lemma_assigned_row_accepted(
    before: Row,
    key_row: Row,
    bytes: Seq<u8>,
    is_s: bool,
    long: bool,
    empty_root: bool,
    storage_mod: bool,
    pv_before: ProofValues,
    pv: ProofValues,
    r: int,
)
    requires
        bytes.len() >= 36,
        before.s_main.cells() == bytes.subrange(0, 34),
        bytes[34] == 0,
        bytes[35] == 0,
        !long ==> forall|i: int| 1 <= i < 34 ==> bytes[i] == 0,
        pv_before.acc_s == key_row.acc_s.rlc,
        pv_before.acc_mult_s == key_row.acc_s.mult,
        pv.acc_s@ == fadd(
            pv_before.acc_s@,
            fmul(pv_before.acc_mult_s@, rlc(bytes.subrange(0, 34), r)),
        ),
        pv.acc_c@ == rlc(
            bytes.subrange(
                if long {
                    2
                } else {
                    0
                },
                if long {
                    36
                } else {
                    34
                },
            ),
            r,
        ),
    ensures
        ({
            let row = assigned_row(before, is_s, long, empty_root, storage_mod, pv_before, pv);
            &&& row.flag1 != row.flag2
            &&& row.acc_c.rlc@ == rlc(value_content(row), r)
            &&& row.acc_s.rlc@ == leaf_rlc_value(key_row, value_cells(row), r)
        }),
{
    let row = assigned_row(before, is_s, long, empty_root, storage_mod, pv_before, pv);
    let cells = bytes.subrange(0, 34);
    assert(row.s_main == before.s_main);
    assert(cells.len() == 34);
    assert(row.s_main.rlp1 == cells[0]);
    if long {
        let tail = bytes.subrange(2, 36);
        crate::rlc::lemma_rlc_zero_tail(tail, r, 32);
        assert(tail.subrange(0, 32) =~= row.s_main.bytes@) by {
            assert forall|i: int| 0 <= i < 32 implies tail.subrange(0, 32)[i]
                == row.s_main.bytes@[i] by {
                assert(cells[2 + i] == row.s_main.bytes@[i]);
            }
        }
    } else {
        crate::rlc::lemma_rlc_zero_tail(cells, r, 1);
        assert(cells.subrange(0, 1) =~= seq![row.s_main.rlp1]);
    }
}

/// Where both chips accept the rows of a leaf whose key comes with its
/// length and fits its row, the leaf accumulator of the value row is the
/// combination of the leaf's own bytes: the bytes of the key row up to the
/// end of the key, followed by the first `nv` bytes of the value row, where
/// the cells of the value row after them are zero.
pub proof fn lemma_accepted_leaf_is_committed(
    table: Seq<Row>,
    keccak: Seq<KeccakEntry>,
    offset: int,
    cfg: LeafValueConfig,
    r: int,
    nv: nat,
)
    requires
        crate::leaf_key::satisfied(
            table,
            offset - 1,
            crate::leaf_key::LeafKeyConfig { is_s: cfg.is_s },
            r,
        ),
        satisfied(table, keccak, offset, cfg, r),
        row_at(table, offset, -1).shape().has_key_length(),
        key_row_len(row_at(table, offset, -1)) <= 36,
        nv <= value_cells(row_at(table, offset, 0)).len(),
        zeros_from(value_cells(row_at(table, offset, 0)), nv as int),
    ensures
        0 <= key_row_len(row_at(table, offset, -1)),
        row_at(table, offset, 0).acc_s.rlc@ == rlc(
            row_at(table, offset, -1).key_cells().subrange(
                0,
                key_row_len(row_at(table, offset, -1)),
            ) + value_cells(row_at(table, offset, 0)).subrange(0, nv as int),
            r,
        ),
{
    let key_cfg = crate::leaf_key::LeafKeyConfig { is_s: cfg.is_s };
    let key_row = row_at(table, offset, -1);
    let row = row_at(table, offset, 0);
    let ctx = value_context(table, offset, cfg);
    assert(row_at(table, offset - 1, 0) == key_row);
    assert(crate::leaf_key::holds(
        crate::leaf_key::LeafKeyConstraint::LeafRlc,
        table,
        offset - 1,
        key_cfg,
        r,
    ));
    assert(crate::leaf_key::holds(
        crate::leaf_key::LeafKeyConstraint::LeafMult,
        table,
        offset - 1,
        key_cfg,
        r,
    ));
    assert(crate::leaf_key::holds(
        crate::leaf_key::LeafKeyConstraint::ZeroPadding,
        table,
        offset - 1,
        key_cfg,
        r,
    ));
    assert(holds(LeafValueConstraint::LeafRlc, ctx, keccak, cfg.is_s, r));
    lemma_leaf_rlc_of_bytes(key_row, row, r, key_row_len(key_row) as nat, nv);
}

/// The assignment sets the marker of its side exactly under an empty
/// storage root: in a row whose marker was clear, the marker is set after
/// the assignment if and only if the row that stands where the account
/// keeps this side's storage root is of that kind and holds the hash of the
/// empty trie. The marker of the other side stays as it was.
pub proof fn lemma_marker_under_empty_root(
    before: Row,
    root_row: MptWitnessRow,
    is_s: bool,
    long: bool,
    storage_mod: bool,
    pv_before: ProofValues,
    pv: ProofValues,
)
    requires
        !sel_of(before, is_s),
        root_row.row_type() == root_kind(is_s) ==> root_row.bytes@.len() >= 34,
    ensures
        ({
            let row = assigned_row(
                before,
                is_s,
                long,
                holds_empty_root(root_row, root_kind(is_s)),
                storage_mod,
                pv_before,
                pv,
            );
            &&& sel_of(row, is_s) <==> root_row.row_type() == root_kind(is_s)
                && root_row.bytes@.subrange(2, 34) == empty_trie_hash()
            &&& sel_of(row, !is_s) == sel_of(before, !is_s)
        }),
{
}

} // verus!
