//! The chip for the row of a leaf that drifted into a new branch, and the
//! assignment of that row.
//!
//! Where an update puts a branch in the place of a leaf, the other side of
//! the update has a placeholder for that branch, and the leaf that stood
//! there is found one level further down, in the new branch. The chip is
//! active where the branch above is a placeholder on either side. It
//! shows that the leaf kept its key: the key accumulator from above the
//! placeholder, the position of the leaf in the new branch and the key
//! bytes that the leaf still holds give the key combination that the leaf
//! had before. And it shows that the hash of the leaf, rebuilt from the
//! drifted row and the account fields of the leaf, is what the new branch
//! holds at that position.

use crate::field::{fadd, fmul, fpow, fsub, Fe};
use crate::lookup::{keccak_contains, mult_diff_holds, mult_diff_lookup, KeccakEntry, KeccakTable};
use crate::rlc::{compute_acc_and_mult, compute_rlc, rlc};
use crate::witness::{
    b2i, read_row, row_at, Accumulator, ProofValues, Row, ACCOUNT_DRIFTED_LEAF_IND,
    ACCOUNT_LEAF_KEY_C_IND, ACCOUNT_LEAF_KEY_S_IND, ACCOUNT_LEAF_NONCE_BALANCE_C_IND,
    ACCOUNT_LEAF_NONCE_BALANCE_S_IND, ACCOUNT_LEAF_STORAGE_CODEHASH_C_IND,
    ACCOUNT_LEAF_STORAGE_CODEHASH_S_IND, BRANCH_ROWS_NUM,
};
use vstd::prelude::*;
use vstd::slice::slice_subrange;

verus! {

/// Offset of the first row of the branch above.
pub const ROT_BRANCH_INIT: i32 = -ACCOUNT_DRIFTED_LEAF_IND - BRANCH_ROWS_NUM;

/// Offset of the first child row of the branch above.
pub const ROT_FIRST_CHILD: i32 = ROT_BRANCH_INIT + 1;

/// Offset of a child row of the branch above: any of them holds the
/// position of the drifted leaf and what the branch records of it.
pub const ROT_BRANCH_CHILD: i32 = -17;

/// Offset of the last row of the branch above.
pub const ROT_EXTENSION: i32 = -ACCOUNT_DRIFTED_LEAF_IND - 1;

/// Offset of the first child row of the branch above the branch above.
pub const ROT_ABOVE_FIRST_CHILD: i32 = ROT_BRANCH_INIT - BRANCH_ROWS_NUM + 1;

/// The settings of the chip.
#[derive(Clone, Copy, Debug, PartialEq, Eq, Structural)]
pub struct AccountLeafKeyInAddedBranchConfig {
    /// Whether the cells after the key are held to zero.
    pub check_zeros: bool,
}

/// The rows that the chip reads around a drifted-leaf row.
#[derive(Clone, Copy, Debug)]
pub struct DriftedContext {
    /// The drifted-leaf row itself.
    pub row: Row,
    /// The first row of the branch above.
    pub init: Row,
    /// The first child row of the branch above.
    pub first_child: Row,
    /// A child row of the branch above.
    pub child: Row,
    /// The last row of the branch above, which holds the key accumulator of
    /// its extension node.
    pub ext_row: Row,
    /// The first child row of the branch above that branch.
    pub above_child: Row,
    /// The key row of the S leaf.
    pub key_s_row: Row,
    /// The key row of the C leaf.
    pub key_c_row: Row,
    /// The nonce and balance row of the S leaf.
    pub nonce_s_row: Row,
    /// The nonce and balance row of the C leaf.
    pub nonce_c_row: Row,
    /// The storage root and code hash row of the S leaf.
    pub storage_s_row: Row,
    /// The storage root and code hash row of the C leaf.
    pub storage_c_row: Row,
}

/// The named conditions of the chip, in the order in which they are tried.
#[derive(Clone, Copy, Debug, PartialEq, Eq, Structural)]
pub enum DriftedLeafConstraint {
    /// The drifted leaf starts with the byte 248.
    LongPrefix,
    /// The leaf accumulator is the combination of the row's cells.
    LeafRlc,
    /// The leaf multiplier is the power that the key's length gives.
    LeafMult,
    /// A key that starts on a byte boundary starts with the byte 32.
    EvenKeyPrefix,
    /// The drifted leaf has the key of the S leaf.
    KeyRlcS,
    /// The drifted leaf has the key of the C leaf.
    KeyRlcC,
    /// The hash of the drifted leaf is in the new branch of the S side.
    HashInBranchS,
    /// The hash of the drifted leaf is in the new branch of the C side.
    HashInBranchC,
    /// The cells after the key are zero.
    ZeroPadding,
}

/// The rows around the drifted-leaf row at `offset`.
pub open spec fn drifted_context(table: Seq<Row>, offset: int) -> DriftedContext {
    DriftedContext {
        row: row_at(table, offset, 0),
        init: row_at(table, offset, ROT_BRANCH_INIT as int),
        first_child: row_at(table, offset, ROT_FIRST_CHILD as int),
        child: row_at(table, offset, ROT_BRANCH_CHILD as int),
        ext_row: row_at(table, offset, ROT_EXTENSION as int),
        above_child: row_at(table, offset, ROT_ABOVE_FIRST_CHILD as int),
        key_s_row: row_at(table, offset, ACCOUNT_LEAF_KEY_S_IND - ACCOUNT_DRIFTED_LEAF_IND),
        key_c_row: row_at(table, offset, ACCOUNT_LEAF_KEY_C_IND - ACCOUNT_DRIFTED_LEAF_IND),
        nonce_s_row: row_at(
            table,
            offset,
            ACCOUNT_LEAF_NONCE_BALANCE_S_IND - ACCOUNT_DRIFTED_LEAF_IND,
        ),
        nonce_c_row: row_at(
            table,
            offset,
            ACCOUNT_LEAF_NONCE_BALANCE_C_IND - ACCOUNT_DRIFTED_LEAF_IND,
        ),
        storage_s_row: row_at(
            table,
            offset,
            ACCOUNT_LEAF_STORAGE_CODEHASH_S_IND - ACCOUNT_DRIFTED_LEAF_IND,
        ),
        storage_c_row: row_at(
            table,
            offset,
            ACCOUNT_LEAF_STORAGE_CODEHASH_C_IND - ACCOUNT_DRIFTED_LEAF_IND,
        ),
    }
}

/// Whether the chip is active: the branch above is a placeholder on one
/// side.
pub open spec fn is_active(ctx: DriftedContext) -> bool {
    ctx.init.branch.is_s_placeholder || ctx.init.branch.is_c_placeholder
}

/// The key accumulator right before the position in the new branch enters:
/// that of the extension node where the new branch has one; else that of
/// the branch above the placeholder, and zero where none is above.
pub open spec fn key_rlc_above(ctx: DriftedContext) -> int {
    if ctx.init.branch.is_extension {
        ctx.ext_row.key.rlc@
    } else if ctx.init.not_first_level {
        ctx.above_child.key.rlc@
    } else {
        0
    }
}

/// The power of the challenge at which the position in the new branch
/// enters: that of the branch above the placeholder (one where none is
/// above), moved on over the nibbles of the extension node where the new
/// branch has one.
pub open spec fn key_mult_above(ctx: DriftedContext, r: int) -> int {
    let above = if ctx.init.not_first_level {
        ctx.above_child.key.mult@
    } else {
        1
    };
    let over_extension = if ctx.init.branch.is_extension {
        if ctx.init.branch.is_extension_one_nibble {
            if ctx.init.branch.sel_even {
                1
            } else {
                r
            }
        } else {
            ctx.first_child.mult_diff@
        }
    } else {
        1
    };
    fmul(above, over_extension)
}

/// The factor of the position in the new branch: sixteen times the power
/// where the position is the high half of a key byte, the power itself
/// where it is the low half.
pub open spec fn drifted_pos_mult(ctx: DriftedContext, r: int) -> int {
    let m = key_mult_above(ctx, r);
    fadd(fmul(fmul(m, 16), b2i(ctx.init.branch.sel_odd)), fmul(m, b2i(ctx.init.branch.sel_even)))
}

/// What the key bytes of the drifted row add: the nibble in the first key
/// byte (the byte less 48) where the position was a high half, and the 32
/// cells after it from the next power on.
pub open spec fn key_tail(row: Row, odd: bool, r: int) -> int {
    let cells = row.key_cells();
    fadd(fmul(fsub(cells[3] as int, 48), b2i(odd)), fmul(r, rlc(cells.subrange(4, 36), r)))
}

/// The key combination of the drifted leaf with the position `pos` in the
/// new branch.
pub open spec fn drifted_key_rlc(ctx: DriftedContext, pos: u8, r: int) -> int {
    fadd(
        fadd(key_rlc_above(ctx), fmul(pos as int, drifted_pos_mult(ctx, r))),
        fmul(key_mult_above(ctx, r), key_tail(ctx.row, ctx.init.branch.sel_odd, r)),
    )
}

/// A stored account field as it enters the leaf: with its length cell
/// before it where it is long, alone where it is short.
pub open spec fn field_rlc(long: bool, first: u8, stored: int, r: int) -> int {
    if long {
        fadd(first as int, fmul(stored, r))
    } else {
        stored
    }
}

/// What the account fields add to the leaf behind its key, with the power
/// one for the first cell: the four RLP cells of the nonce row, the nonce,
/// the balance at the power that follows the nonce, then the storage root
/// and the code hash with the RLP cell before each.
pub open spec fn account_fields_rlc(key_row: Row, nonce_row: Row, storage_row: Row, r: int) -> int {
    let after_nonce = nonce_row.acc_c.rlc@;
    let after_balance = fmul(after_nonce, nonce_row.key.mult@);
    let at_root = fmul(after_balance, r);
    let after_root = fmul(at_root, fpow(r, 32));
    let at_codehash = fmul(after_root, r);
    let head = rlc(
        seq![
            nonce_row.s_main.rlp1,
            nonce_row.s_main.rlp2,
            nonce_row.c_main.rlp1,
            nonce_row.c_main.rlp2,
        ],
        r,
    );
    let nonce = field_rlc(key_row.sel1, nonce_row.s_main.bytes@[0], nonce_row.s_mod_node_rlc@, r);
    let balance = field_rlc(
        key_row.sel2,
        nonce_row.c_main.bytes@[0],
        nonce_row.c_mod_node_rlc@,
        r,
    );
    fadd(
        fadd(
            fadd(
                fadd(fadd(fadd(head, fmul(nonce, fpow(r, 4))), fmul(balance, after_nonce)), fmul(
                    storage_row.s_main.rlp2 as int,
                    after_balance,
                )),
                fmul(storage_row.s_mod_node_rlc@, at_root),
            ),
            fmul(storage_row.c_main.rlp2 as int, after_root),
        ),
        fmul(storage_row.c_mod_node_rlc@, at_codehash),
    )
}

/// The combination of the whole drifted leaf with the account fields of
/// the given side.
pub open spec fn drifted_leaf_rlc(ctx: DriftedContext, is_s: bool, r: int) -> int {
    let fields = if is_s {
        account_fields_rlc(ctx.key_s_row, ctx.nonce_s_row, ctx.storage_s_row, r)
    } else {
        account_fields_rlc(ctx.key_c_row, ctx.nonce_c_row, ctx.storage_c_row, r)
    };
    fadd(ctx.row.acc_s.rlc@, fmul(ctx.row.acc_s.mult@, fields))
}

/// Whether the cells after a key of `key_len` bytes are zero, among the
/// cells before position `upto`. The key starts at the fourth cell.
pub open spec fn zeros_after_key(cells: Seq<u8>, key_len: int, upto: int) -> bool {
    forall|i: int| 3 <= i < upto && i < cells.len() && i > key_len + 2 ==> cells[i] == 0
}

/// Whether one named condition holds of the rows in `ctx`.
pub open spec fn holds(
    c: DriftedLeafConstraint,
    ctx: DriftedContext,
    keccak: Seq<KeccakEntry>,
    check_zeros: bool,
    r: int,
) -> bool {
    let row = ctx.row;
    let active = is_active(ctx);
    let len = row.s_main.rlp2 + 2;
    match c {
        DriftedLeafConstraint::LongPrefix => active ==> row.s_main.rlp1 == 248,
        DriftedLeafConstraint::LeafRlc => active ==> row.acc_s.rlc@ == rlc(row.key_cells(), r),
        DriftedLeafConstraint::LeafMult => active ==> mult_diff_holds(
            row.s_main.bytes@[0],
            3,
            row.acc_s.mult@,
            r,
        ),
        DriftedLeafConstraint::EvenKeyPrefix => active && ctx.init.branch.sel_even
            ==> row.s_main.bytes@[1] == 32,
        DriftedLeafConstraint::KeyRlcS => ctx.init.branch.is_s_placeholder
            ==> ctx.key_s_row.key.rlc@ == drifted_key_rlc(ctx, ctx.child.drifted_pos, r),
        DriftedLeafConstraint::KeyRlcC => ctx.init.branch.is_c_placeholder
            ==> ctx.key_c_row.key.rlc@ == drifted_key_rlc(ctx, ctx.child.drifted_pos, r),
        DriftedLeafConstraint::HashInBranchS => ctx.init.branch.is_s_placeholder
            ==> keccak_contains(
            keccak,
            drifted_leaf_rlc(ctx, true, r),
            len,
            ctx.child.s_mod_node_rlc@,
        ),
        DriftedLeafConstraint::HashInBranchC => ctx.init.branch.is_c_placeholder
            ==> keccak_contains(
            keccak,
            drifted_leaf_rlc(ctx, false, r),
            len,
            ctx.child.c_mod_node_rlc@,
        ),
        DriftedLeafConstraint::ZeroPadding => check_zeros ==> zeros_after_key(
            row.key_cells(),
            row.s_main.bytes@[0] - 128,
            if active {
                36
            } else {
                34
            },
        ),
    }
}

/// The first named condition, in the order of `DriftedLeafConstraint`,
/// that fails of the rows in `ctx`.
pub open spec fn first_violation(
    ctx: DriftedContext,
    keccak: Seq<KeccakEntry>,
    check_zeros: bool,
    r: int,
) -> Option<DriftedLeafConstraint> {
    if !holds(DriftedLeafConstraint::LongPrefix, ctx, keccak, check_zeros, r) {
        Some(DriftedLeafConstraint::LongPrefix)
    } else if !holds(DriftedLeafConstraint::LeafRlc, ctx, keccak, check_zeros, r) {
        Some(DriftedLeafConstraint::LeafRlc)
    } else if !holds(DriftedLeafConstraint::LeafMult, ctx, keccak, check_zeros, r) {
        Some(DriftedLeafConstraint::LeafMult)
    } else if !holds(DriftedLeafConstraint::EvenKeyPrefix, ctx, keccak, check_zeros, r) {
        Some(DriftedLeafConstraint::EvenKeyPrefix)
    } else if !holds(DriftedLeafConstraint::KeyRlcS, ctx, keccak, check_zeros, r) {
        Some(DriftedLeafConstraint::KeyRlcS)
    } else if !holds(DriftedLeafConstraint::KeyRlcC, ctx, keccak, check_zeros, r) {
        Some(DriftedLeafConstraint::KeyRlcC)
    } else if !holds(DriftedLeafConstraint::HashInBranchS, ctx, keccak, check_zeros, r) {
        Some(DriftedLeafConstraint::HashInBranchS)
    } else if !holds(DriftedLeafConstraint::HashInBranchC, ctx, keccak, check_zeros, r) {
        Some(DriftedLeafConstraint::HashInBranchC)
    } else if !holds(DriftedLeafConstraint::ZeroPadding, ctx, keccak, check_zeros, r) {
        Some(DriftedLeafConstraint::ZeroPadding)
    } else {
        None
    }
}

/// Whether the chip accepts the drifted-leaf row at `offset`: every named
/// condition holds.
pub open spec fn satisfied(
    table: Seq<Row>,
    keccak: Seq<KeccakEntry>,
    offset: int,
    cfg: AccountLeafKeyInAddedBranchConfig,
    r: int,
) -> bool {
    forall|c: DriftedLeafConstraint|
        holds(c, drifted_context(table, offset), keccak, cfg.check_zeros, r)
}

/// The chip accepts a row exactly when no named condition fails of it.
pub proof fn lemma_satisfied_iff_no_violation(
    table: Seq<Row>,
    keccak: Seq<KeccakEntry>,
    offset: int,
    cfg: AccountLeafKeyInAddedBranchConfig,
    r: int,
)
    ensures
        satisfied(table, keccak, offset, cfg, r) <==> first_violation(
            drifted_context(table, offset),
            keccak,
            cfg.check_zeros,
            r,
        ).is_none(),
{
    let ctx = drifted_context(table, offset);
    if first_violation(ctx, keccak, cfg.check_zeros, r).is_none() {
        assert forall|c: DriftedLeafConstraint| holds(c, ctx, keccak, cfg.check_zeros, r) by {
            match c {
                DriftedLeafConstraint::LongPrefix => {},
                DriftedLeafConstraint::LeafRlc => {},
                DriftedLeafConstraint::LeafMult => {},
                DriftedLeafConstraint::EvenKeyPrefix => {},
                DriftedLeafConstraint::KeyRlcS => {},
                DriftedLeafConstraint::KeyRlcC => {},
                DriftedLeafConstraint::HashInBranchS => {},
                DriftedLeafConstraint::HashInBranchC => {},
                DriftedLeafConstraint::ZeroPadding => {},
            }
        }
    }
}

/// The key accumulator right before the position in the new branch enters.
pub fn compute_key_rlc_above(ctx: &DriftedContext) -> (out: Fe)
    ensures
        out@ == key_rlc_above(*ctx),
{
    if ctx.init.branch.is_extension {
        ctx.ext_row.key.rlc
    } else if ctx.init.not_first_level {
        ctx.above_child.key.rlc
    } else {
        Fe::zero()
    }
}

/// The power of the challenge at which the position in the new branch
/// enters.
pub fn compute_key_mult_above(ctx: &DriftedContext, r: Fe) -> (out: Fe)
    ensures
        out@ == key_mult_above(*ctx, r@),
{
    let above: Fe = if ctx.init.not_first_level {
        ctx.above_child.key.mult
    } else {
        Fe::one()
    };
    let over_extension: Fe = if ctx.init.branch.is_extension {
        if ctx.init.branch.is_extension_one_nibble {
            if ctx.init.branch.sel_even {
                Fe::one()
            } else {
                r
            }
        } else {
            ctx.first_child.mult_diff
        }
    } else {
        Fe::one()
    };
    above.mul(over_extension)
}

/// The key combination of the drifted leaf with the position that the
/// branch above records.
pub fn compute_drifted_key_rlc(ctx: &DriftedContext, r: Fe) -> (out: Fe)
    ensures
        out@ == drifted_key_rlc(*ctx, ctx.child.drifted_pos, r@),
{
    let odd: Fe = Fe::from_bool(ctx.init.branch.sel_odd);
    let even: Fe = Fe::from_bool(ctx.init.branch.sel_even);
    let m: Fe = compute_key_mult_above(ctx, r);
    let pos_mult: Fe = m.mul(Fe::from_u8(16)).mul(odd).add(m.mul(even));
    let cells: Vec<u8> = ctx.row.key_cells_vec();
    assert(cells@.len() == 36);
    let tail: Fe = Fe::from_u8(cells[3]).sub(Fe::from_u8(48)).mul(odd).add(
        r.mul(compute_rlc(slice_subrange(cells.as_slice(), 4, 36), r)),
    );
    compute_key_rlc_above(ctx).add(Fe::from_u8(ctx.child.drifted_pos).mul(pos_mult)).add(
        m.mul(tail),
    )
}

/// A stored account field as it enters the leaf.
pub fn compute_field_rlc(long: bool, first: u8, stored: Fe, r: Fe) -> (out: Fe)
    ensures
        out@ == field_rlc(long, first, stored@, r@),
{
    if long {
        Fe::from_u8(first).add(stored.mul(r))
    } else {
        stored
    }
}

/// What the account fields add to the leaf behind its key.
pub fn compute_account_fields_rlc(key_row: &Row, nonce_row: &Row, storage_row: &Row, r: Fe) -> (out:
    Fe)
    ensures
        out@ == account_fields_rlc(*key_row, *nonce_row, *storage_row, r@),
{
    let after_nonce: Fe = nonce_row.acc_c.rlc;
    let after_balance: Fe = after_nonce.mul(nonce_row.key.mult);
    let at_root: Fe = after_balance.mul(r);
    let after_root: Fe = at_root.mul(r.pow(32));
    let at_codehash: Fe = after_root.mul(r);
    let four: [u8; 4] = [
        nonce_row.s_main.rlp1,
        nonce_row.s_main.rlp2,
        nonce_row.c_main.rlp1,
        nonce_row.c_main.rlp2,
    ];
    assert(four@ =~= seq![
        nonce_row.s_main.rlp1,
        nonce_row.s_main.rlp2,
        nonce_row.c_main.rlp1,
        nonce_row.c_main.rlp2,
    ]);
    let head: Fe = compute_rlc(vstd::array::array_as_slice(&four), r);
    let nonce: Fe = compute_field_rlc(
        key_row.sel1,
        nonce_row.s_main.bytes[0],
        nonce_row.s_mod_node_rlc,
        r,
    );
    let balance: Fe = compute_field_rlc(
        key_row.sel2,
        nonce_row.c_main.bytes[0],
        nonce_row.c_mod_node_rlc,
        r,
    );
    head.add(nonce.mul(r.pow(4))).add(balance.mul(after_nonce)).add(
        Fe::from_u8(storage_row.s_main.rlp2).mul(after_balance),
    ).add(storage_row.s_mod_node_rlc.mul(at_root)).add(
        Fe::from_u8(storage_row.c_main.rlp2).mul(after_root),
    ).add(storage_row.c_mod_node_rlc.mul(at_codehash))
}

/// The combination of the whole drifted leaf with the account fields of
/// the given side.
pub fn compute_drifted_leaf_rlc(ctx: &DriftedContext, is_s: bool, r: Fe) -> (out: Fe)
    ensures
        out@ == drifted_leaf_rlc(*ctx, is_s, r@),
{
    let fields: Fe = if is_s {
        compute_account_fields_rlc(&ctx.key_s_row, &ctx.nonce_s_row, &ctx.storage_s_row, r)
    } else {
        compute_account_fields_rlc(&ctx.key_c_row, &ctx.nonce_c_row, &ctx.storage_c_row, r)
    };
    ctx.row.acc_s.rlc.add(ctx.row.acc_s.mult.mul(fields))
}

/// Checks that the cells after a key of `key_len` bytes are zero, among the
/// cells before position `upto`.
pub fn check_zeros_after_key(cells: &[u8], key_len: i32, upto: usize) -> (ok: bool)
    ensures
        ok == zeros_after_key(cells@, key_len as int, upto as int),
{
    let n: usize = cells.len();
    let end: usize = if upto < n {
        upto
    } else {
        n
    };
    let mut i: usize = 3;
    while i < end
        invariant
            3 <= i,
            end <= n,
            end <= upto,
            end == upto || end == n,
            n == cells@.len(),
            forall|j: int| 3 <= j < i && j > key_len + 2 ==> cells@[j] == 0,
        decreases end - i,
    {
        if (i > 0x8000_0001 || i as i64 > key_len as i64 + 2) && cells[i] != 0 {
            return false;
        }
        i = i + 1;
    }
    true
}

impl AccountLeafKeyInAddedBranchConfig {
    /// The configuration of the chip.
    pub fn configure(check_zeros: bool) -> (config: Self)
        ensures
            config.check_zeros == check_zeros,
    {
        AccountLeafKeyInAddedBranchConfig { check_zeros }
    }

    /// The rows around the drifted-leaf row at `offset`.
    pub fn gather(&self, table: &Vec<Row>, offset: usize) -> (ctx: DriftedContext)
        ensures
            ctx == drifted_context(table@, offset as int),
    {
        DriftedContext {
            row: read_row(table, offset, 0),
            init: read_row(table, offset, ROT_BRANCH_INIT),
            first_child: read_row(table, offset, ROT_FIRST_CHILD),
            child: read_row(table, offset, ROT_BRANCH_CHILD),
            ext_row: read_row(table, offset, ROT_EXTENSION),
            above_child: read_row(table, offset, ROT_ABOVE_FIRST_CHILD),
            key_s_row: read_row(table, offset, ACCOUNT_LEAF_KEY_S_IND - ACCOUNT_DRIFTED_LEAF_IND),
            key_c_row: read_row(table, offset, ACCOUNT_LEAF_KEY_C_IND - ACCOUNT_DRIFTED_LEAF_IND),
            nonce_s_row: read_row(
                table,
                offset,
                ACCOUNT_LEAF_NONCE_BALANCE_S_IND - ACCOUNT_DRIFTED_LEAF_IND,
            ),
            nonce_c_row: read_row(
                table,
                offset,
                ACCOUNT_LEAF_NONCE_BALANCE_C_IND - ACCOUNT_DRIFTED_LEAF_IND,
            ),
            storage_s_row: read_row(
                table,
                offset,
                ACCOUNT_LEAF_STORAGE_CODEHASH_S_IND - ACCOUNT_DRIFTED_LEAF_IND,
            ),
            storage_c_row: read_row(
                table,
                offset,
                ACCOUNT_LEAF_STORAGE_CODEHASH_C_IND - ACCOUNT_DRIFTED_LEAF_IND,
            ),
        }
    }

    /// Holds the drifted-leaf row at `offset` to the chip. An accepted row
    /// gives the key combination of the drifted leaf; a rejected row gives
    /// the first condition that fails.
    pub fn check(&self, table: &Vec<Row>, keccak: &KeccakTable, offset: usize, r: Fe) -> (res:
        Result<Fe, DriftedLeafConstraint>)
        ensures
            res.is_ok() <==> satisfied(table@, keccak.entries@, offset as int, *self, r@),
            res matches Err(c) ==> first_violation(
                drifted_context(table@, offset as int),
                keccak.entries@,
                self.check_zeros,
                r@,
            ) == Some(c),
            res matches Ok(key_rlc) ==> key_rlc@ == drifted_key_rlc(
                drifted_context(table@, offset as int),
                row_at(table@, offset as int, ROT_BRANCH_CHILD as int).drifted_pos,
                r@,
            ),
    {
        let ctx: DriftedContext = self.gather(table, offset);
        proof {
            lemma_satisfied_iff_no_violation(table@, keccak.entries@, offset as int, *self, r@);
        }
        let row: Row = ctx.row;
        let s_placeholder: bool = ctx.init.branch.is_s_placeholder;
        let c_placeholder: bool = ctx.init.branch.is_c_placeholder;
        let active: bool = s_placeholder || c_placeholder;
        let cells: Vec<u8> = row.key_cells_vec();
        if active && row.s_main.rlp1 != 248 {
            return Err(DriftedLeafConstraint::LongPrefix);
        }
        if active && !compute_rlc(cells.as_slice(), r).eq_fe(row.acc_s.rlc) {
            return Err(DriftedLeafConstraint::LeafRlc);
        }
        if active && !mult_diff_lookup(row.s_main.bytes[0], 3, row.acc_s.mult, r) {
            return Err(DriftedLeafConstraint::LeafMult);
        }
        if active && ctx.init.branch.sel_even && row.s_main.bytes[1] != 32 {
            return Err(DriftedLeafConstraint::EvenKeyPrefix);
        }
        let key_rlc: Fe = compute_drifted_key_rlc(&ctx, r);
        if s_placeholder && !ctx.key_s_row.key.rlc.eq_fe(key_rlc) {
            return Err(DriftedLeafConstraint::KeyRlcS);
        }
        if c_placeholder && !ctx.key_c_row.key.rlc.eq_fe(key_rlc) {
            return Err(DriftedLeafConstraint::KeyRlcC);
        }
        let len: i64 = row.s_main.rlp2 as i64 + 2;
        if s_placeholder && !keccak.lookup(
            compute_drifted_leaf_rlc(&ctx, true, r),
            len,
            ctx.child.s_mod_node_rlc,
        ) {
            return Err(DriftedLeafConstraint::HashInBranchS);
        }
        if c_placeholder && !keccak.lookup(
            compute_drifted_leaf_rlc(&ctx, false, r),
            len,
            ctx.child.c_mod_node_rlc,
        ) {
            return Err(DriftedLeafConstraint::HashInBranchC);
        }
        let upto: usize = if active {
            36
        } else {
            34
        };
        if self.check_zeros && !check_zeros_after_key(
            cells.as_slice(),
            row.s_main.bytes[0] as i32 - 128,
            upto,
        ) {
            return Err(DriftedLeafConstraint::ZeroPadding);
        }
        Ok(key_rlc)
    }

    /// Assigns the accumulator of the drifted-leaf row at `offset` from the
    /// row's bytes: the leaf accumulator starts anew and takes the three
    /// cells before the key and the key, whose length the third byte
    /// holds on top of 128.
    pub fn assign(
        &self,
        region: &mut Vec<Row>,
        pv: &mut ProofValues,
        row: &[u8],
        offset: usize,
        r: Fe,
    )
        requires
            offset < old(region)@.len(),
            3 <= row@.len(),
            128 <= row@[2],
            row@[2] - 128 + 3 <= row@.len(),
        ensures
            final(pv).acc_s@ == rlc(row@.subrange(0, row@[2] - 128 + 3), r@),
            final(pv).acc_mult_s@ == fpow(r@, (row@[2] - 128 + 3) as nat),
            *final(pv) == (ProofValues {
                acc_s: final(pv).acc_s,
                acc_mult_s: final(pv).acc_mult_s,
                ..*old(pv)
            }),
            final(region)@ == old(region)@.update(
                offset as int,
                Row {
                    acc_s: Accumulator { rlc: final(pv).acc_s, mult: final(pv).acc_mult_s },
                    acc_c: Accumulator {
                        rlc: crate::field::fe_zero(),
                        mult: crate::field::fe_zero(),
                    },
                    ..old(region)@[offset as int]
                },
            ),
    {
        let mut acc: Fe = Fe::zero();
        let mut mult: Fe = Fe::one();
        let len: usize = (row[2] - 128) as usize + 3;
        compute_acc_and_mult(row, &mut acc, &mut mult, 0, len, r);
        proof {
            let seg = row@.subrange(0, len as int);
            crate::rlc::lemma_rlc_residue(seg, r@, seg.len());
            crate::algebra::lemma_neutral(rlc(seg, r@));
            crate::algebra::lemma_fpow_residue(r@, len as nat);
            crate::algebra::lemma_neutral(fpow(r@, len as nat));
        }
        pv.acc_s = acc;
        pv.acc_mult_s = mult;
        let mut out: Row = region[offset];
        out.acc_s = Accumulator { rlc: acc, mult };
        out.acc_c = Accumulator { rlc: Fe::zero(), mult: Fe::zero() };
        region.set(offset, out);
    }
}

/// The factor of the position is not zero where exactly one of the two
/// halves is selected and the power that the position enters with is not
/// zero.
pub proof fn lemma_position_factor_nonzero(ctx: DriftedContext, r: int)
    requires
        ctx.init.branch.sel_odd != ctx.init.branch.sel_even,
        key_mult_above(ctx, r) != 0,
    ensures
        drifted_pos_mult(ctx, r) != 0,
{
    let m = key_mult_above(ctx, r);
    let m16 = fmul(m, 16);
    crate::algebra::lemma_residue(m, 16);
    crate::algebra::lemma_neutral(m);
    crate::algebra::lemma_neutral(m16);
    crate::algebra::lemma_neutral(0);
    crate::algebra::lemma_fmul_comm(m, 16);
    if ctx.init.branch.sel_odd {
        if m16 == 0 {
            crate::algebra::lemma_small_multiple(16, m);
        }
    }
}

/// The position in the new branch is fixed by the key: where the factor of
/// the position is not zero, two positions that give the drifted leaf the
/// same key combination are the same position.
pub proof fn lemma_drifted_pos_determined(ctx: DriftedContext, p1: u8, p2: u8, r: int)
    requires
        p1 <= 15,
        p2 <= 15,
        drifted_pos_mult(ctx, r) != 0,
        drifted_key_rlc(ctx, p1, r) == drifted_key_rlc(ctx, p2, r),
    ensures
        p1 == p2,
{
    let c = key_rlc_above(ctx);
    let m = drifted_pos_mult(ctx, r);
    let t = fmul(key_mult_above(ctx, r), key_tail(ctx.row, ctx.init.branch.sel_odd, r));
    let v1 = fmul(p1 as int, m);
    let v2 = fmul(p2 as int, m);
    let u1 = fadd(c, v1);
    let u2 = fadd(c, v2);
    crate::algebra::lemma_fadd_comm(u1, t);
    crate::algebra::lemma_fadd_comm(u2, t);
    crate::algebra::lemma_fadd_cancel(t, u1, u2);
    crate::algebra::lemma_residue(c, v1);
    crate::algebra::lemma_residue(c, v2);
    crate::algebra::lemma_reduced(u1);
    crate::algebra::lemma_reduced(u2);
    crate::algebra::lemma_fadd_cancel(c, v1, v2);
    crate::algebra::lemma_residue(p1 as int, m);
    crate::algebra::lemma_residue(p2 as int, m);
    crate::algebra::lemma_reduced(v1);
    crate::algebra::lemma_reduced(v2);
    crate::algebra::lemma_residue(
        fmul(fmul(key_mult_above(ctx, r), 16), b2i(ctx.init.branch.sel_odd)),
        fmul(key_mult_above(ctx, r), b2i(ctx.init.branch.sel_even)),
    );
    crate::algebra::lemma_small_factor_cancel(p1 as int, p2 as int, m);
}

/// Where the drifted leaf has the key of the leaf before the drift, it has
/// it with no other of the sixteen positions, as long as the factor of the
/// position is not zero.
pub proof fn lemma_other_position_rejected(
    ctx: DriftedContext,
    keccak: Seq<KeccakEntry>,
    check_zeros: bool,
    r: int,
    pos: u8,
)
    requires
        is_active(ctx),
        drifted_pos_mult(ctx, r) != 0,
        holds(DriftedLeafConstraint::KeyRlcS, ctx, keccak, check_zeros, r),
        holds(DriftedLeafConstraint::KeyRlcC, ctx, keccak, check_zeros, r),
        ctx.child.drifted_pos <= 15,
        pos <= 15,
        pos != ctx.child.drifted_pos,
    ensures
        ({
            let moved = DriftedContext { child: Row { drifted_pos: pos, ..ctx.child }, ..ctx };
            !(holds(DriftedLeafConstraint::KeyRlcS, moved, keccak, check_zeros, r) && holds(
                DriftedLeafConstraint::KeyRlcC,
                moved,
                keccak,
                check_zeros,
                r,
            ))
        }),
{
    let moved = DriftedContext { child: Row { drifted_pos: pos, ..ctx.child }, ..ctx };
    assert(drifted_key_rlc(moved, pos, r) == drifted_key_rlc(ctx, pos, r));
    if drifted_key_rlc(ctx, pos, r) == drifted_key_rlc(ctx, ctx.child.drifted_pos, r) {
        lemma_drifted_pos_determined(ctx, pos, ctx.child.drifted_pos, r);
    }
}

/// Under a placeholder, a drifted-leaf row that the chip accepts is
/// rejected once the position in the new branch is changed to any other of
/// the sixteen positions, where the factor of the position is not zero:
/// the key of the drifted leaf is then no longer that of the leaf before
/// the drift.
pub proof fn lemma_drifted_pos_mutation(
    table: Seq<Row>,
    keccak: Seq<KeccakEntry>,
    offset: int,
    cfg: AccountLeafKeyInAddedBranchConfig,
    r: int,
    pos: u8,
)
    requires
        17 <= offset < table.len(),
        is_active(drifted_context(table, offset)),
        drifted_pos_mult(drifted_context(table, offset), r) != 0,
        satisfied(table, keccak, offset, cfg, r),
        table[offset - 17].drifted_pos <= 15,
        pos <= 15,
        pos != table[offset - 17].drifted_pos,
    ensures
        !satisfied(
            table.update(offset - 17, Row { drifted_pos: pos, ..table[offset - 17] }),
            keccak,
            offset,
            cfg,
            r,
        ),
{
    let mutated = table.update(offset - 17, Row { drifted_pos: pos, ..table[offset - 17] });
    let ctx = drifted_context(table, offset);
    let moved = DriftedContext { child: Row { drifted_pos: pos, ..ctx.child }, ..ctx };
    assert(drifted_context(mutated, offset) == moved);
    assert(holds(DriftedLeafConstraint::KeyRlcS, ctx, keccak, cfg.check_zeros, r));
    assert(holds(DriftedLeafConstraint::KeyRlcC, ctx, keccak, cfg.check_zeros, r));
    lemma_other_position_rejected(ctx, keccak, cfg.check_zeros, r, pos);
    if satisfied(mutated, keccak, offset, cfg, r) {
        assert(holds(DriftedLeafConstraint::KeyRlcS, moved, keccak, cfg.check_zeros, r));
        assert(holds(DriftedLeafConstraint::KeyRlcC, moved, keccak, cfg.check_zeros, r));
    }
}

} // verus!
