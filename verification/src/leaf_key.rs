//! The chip for the key row of a storage leaf.
//!
//! It holds the row's cells to the combination of the leaf's RLP prefix
//! and key, carries the key accumulator of the levels above over the key
//! bytes of the leaf, and counts the nibbles: those of the levels above and
//! those of the leaf make the 64 nibbles of a 32-byte key.

use crate::field::{fadd, fmul, fsub, Fe};
use crate::lookup::{check_zeros_from, mult_diff_holds, mult_diff_lookup, zeros_from};
use crate::rlc::{compute_rlc, rlc};
use crate::witness::{
    b2i, read_row, row_at, LeafShape, Row, BRANCH_ROWS_NUM, LEAF_KEY_C_IND, LEAF_KEY_S_IND,
};
use vstd::prelude::*;
use vstd::slice::slice_subrange;

verus! {

/// Which side of an update the chip stands on, and with it the offsets at
/// which it finds the rows above the key row.
#[derive(Clone, Copy, Debug, PartialEq, Eq, Structural)]
pub struct LeafKeyConfig {
    /// The S side is the trie before the update, the C side the trie after.
    pub is_s: bool,
}

/// Where a key row stands with respect to the levels above it.
#[derive(Clone, Copy, Debug, PartialEq, Eq, Structural)]
pub enum Level {
    /// No branch stands above the leaf.
    First,
    /// The branch right above the leaf is a placeholder on this side.
    AfterPlaceholder,
    /// A branch of this side's trie stands right above the leaf.
    Regular,
}

/// What a key row takes over from the levels above it.
pub struct KeyContext {
    pub level: Level,
    /// Key combination of the levels above.
    pub start: int,
    /// Power of the challenge that the next key nibble pair enters with.
    pub mult: int,
    /// The leaf's key starts with a single nibble.
    pub odd: bool,
    /// The leaf's key starts on a byte boundary.
    pub even: bool,
    /// Nibbles used by the levels above.
    pub ancestors: int,
}

/// What a key row takes over from the levels above it.
#[derive(Clone, Copy, Debug)]
pub struct Inherited {
    pub level: Level,
    pub start: Fe,
    pub mult: Fe,
    pub odd: bool,
    pub even: bool,
    pub ancestors: u8,
}

impl View for Inherited {
    type V = KeyContext;

    open spec fn view(&self) -> KeyContext {
        KeyContext {
            level: self.level,
            start: self.start@,
            mult: self.mult@,
            odd: self.odd,
            even: self.even,
            ancestors: self.ancestors as int,
        }
    }
}

/// The named conditions of the chip, in the order in which they are tried.
#[derive(Clone, Copy, Debug, PartialEq, Eq, Structural)]
pub enum LeafKeyConstraint {
    /// A long leaf starts with the byte 248.
    LongPrefix,
    /// A leaf in the last level holds the byte 32 in place of a key.
    LastLevelKeyByte,
    /// The leaf accumulator is the combination of the row's cells.
    LeafRlc,
    /// The leaf multiplier is the power that the key's length gives.
    LeafMult,
    /// The cells behind the key are zero.
    ZeroPadding,
    /// A key that starts on a byte boundary starts with the byte 32.
    EvenKeyPrefix,
    /// The key accumulator is that of the levels above carried over what
    /// the leaf holds of the key, whatever the leaf's shape.
    KeyRlc,
    /// The nibbles above the leaf and those of the leaf are 64.
    NibbleTotal,
    /// The row keeps the key combination of the level above.
    PreviousKeyRlc,
    /// The row keeps the key multiplier of the level above.
    PreviousKeyMult,
}

/// What the chip hands on for a row that it accepts.
#[derive(Clone, Copy, Debug)]
pub struct LeafKeyOutput {
    pub shape: LeafShape,
    /// Nibbles of the key that the leaf itself holds.
    pub leaf_nibbles: i32,
    /// The validated key combination.
    pub key_rlc: Fe,
    /// The combination of the leaf's prefix and key.
    pub leaf_rlc: Fe,
}

/// The chip for the key rows of storage leaves.
#[derive(Clone, Copy, Debug)]
pub struct LeafKeyChip {
    config: LeafKeyConfig,
}

/// How many rows above the first row of a branch the key accumulator of the
/// branch above is read: any child row of that branch holds it, and this is
/// the one that is taken.
pub const PREVIOUS_LEVEL_DISTANCE: i32 = 5;

impl LeafKeyConfig {
    /// Position of the key row among the rows of its leaf.
    pub open spec fn key_pos(self) -> int {
        if self.is_s {
            LEAF_KEY_S_IND as int
        } else {
            LEAF_KEY_C_IND as int
        }
    }

    /// Offset of the first row of the branch above.
    pub open spec fn init_rot(self) -> int {
        -self.key_pos() - BRANCH_ROWS_NUM
    }

    /// Offset of the first child row of the branch above, which holds the
    /// key accumulator of that branch.
    pub open spec fn first_child_rot(self) -> int {
        self.init_rot() + 1
    }

    /// Offset of the row right above the leaf's rows: the last row of an
    /// account leaf where no branch stands above the leaf.
    pub open spec fn account_rot(self) -> int {
        -self.key_pos() - 1
    }

    /// Offset of the row right above the branch above: the last row of an
    /// account leaf where that branch stands in the first storage level.
    pub open spec fn account_above_branch_rot(self) -> int {
        self.init_rot() - 1
    }

    /// Offset of the child row of the branch above the branch above, from
    /// which the key accumulator of the level above is taken.
    pub open spec fn previous_level_rot(self) -> int {
        self.init_rot() - PREVIOUS_LEVEL_DISTANCE
    }

    /// Offset of the first row of the branch above the branch above.
    pub open spec fn init_above_rot(self) -> int {
        self.init_rot() - BRANCH_ROWS_NUM
    }

    /// Offset of the first row of the branch above.
    pub fn rot_into_init(&self) -> (rot: i32)
        ensures
            rot == self.init_rot(),
    {
        if self.is_s {
            -LEAF_KEY_S_IND - BRANCH_ROWS_NUM
        } else {
            -LEAF_KEY_C_IND - BRANCH_ROWS_NUM
        }
    }

    /// Offset of the row right above the leaf's rows.
    pub fn rot_into_account(&self) -> (rot: i32)
        ensures
            rot == self.account_rot(),
    {
        if self.is_s {
            -LEAF_KEY_S_IND - 1
        } else {
            -LEAF_KEY_C_IND - 1
        }
    }
}

/// Whether the branch whose first row is `init` is a placeholder on the
/// given side.
pub open spec fn is_placeholder(init: Row, is_s: bool) -> bool {
    if is_s {
        init.branch.is_s_placeholder
    } else {
        init.branch.is_c_placeholder
    }
}

/// Where the key row at `offset` stands.
pub open spec fn level_of(table: Seq<Row>, offset: int, cfg: LeafKeyConfig) -> Level {
    if row_at(table, offset, cfg.account_rot()).is_account_leaf_in_added_branch {
        Level::First
    } else if is_placeholder(row_at(table, offset, cfg.init_rot()), cfg.is_s) {
        Level::AfterPlaceholder
    } else {
        Level::Regular
    }
}

/// What the key row at `offset` takes over from above.
///
/// In the first level nothing is above: the accumulator starts at zero with
/// multiplier one, and the key has all its nibbles. Under a branch of this
/// side the accumulator is that of the branch's first child row, and the
/// branch's first row tells how the key goes on and how many nibbles are
/// used. Under a placeholder the accumulator is the one that the row keeps
/// of the level above the placeholder, and the flags and the count are
/// those of the branch above the placeholder; where the placeholder stands
/// in the first storage level, nothing is above.
pub open spec fn key_context(table: Seq<Row>, offset: int, cfg: LeafKeyConfig) -> KeyContext {
    let level = level_of(table, offset, cfg);
    let init = row_at(table, offset, cfg.init_rot());
    match level {
        Level::First => KeyContext {
            level,
            start: 0,
            mult: 1,
            odd: false,
            even: true,
            ancestors: 0,
        },
        Level::Regular => {
            let child = row_at(table, offset, cfg.first_child_rot());
            KeyContext {
                level,
                start: child.key.rlc@,
                mult: child.key.mult@,
                odd: init.branch.sel_odd,
                even: init.branch.sel_even,
                ancestors: init.branch.nibbles_count as int,
            }
        },
        Level::AfterPlaceholder => {
            let cur = row_at(table, offset, 0);
            let above = row_at(table, offset, cfg.init_above_rot());
            if row_at(table, offset, cfg.account_above_branch_rot()).is_account_leaf_in_added_branch {
                KeyContext { level, start: 0, mult: 1, odd: false, even: true, ancestors: 0 }
            } else {
                KeyContext {
                    level,
                    start: cur.key_prev.rlc@,
                    mult: cur.key_prev.mult@,
                    odd: above.branch.sel_odd,
                    even: above.branch.sel_even,
                    ancestors: above.branch.nibbles_count as int,
                }
            }
        },
    }
}

/// The cell that holds the key's length: the second RLP cell of a short
/// leaf, the first byte cell of a long one.
pub open spec fn length_byte(row: Row, shape: LeafShape) -> u8 {
    if shape == LeafShape::Long {
        row.s_main.bytes@[0]
    } else {
        row.s_main.rlp2
    }
}

/// Position among the row's 36 key cells of the first byte of the key.
pub open spec fn key_start(shape: LeafShape) -> int {
    if shape == LeafShape::Long {
        3
    } else {
        2
    }
}

/// The cells that the key row of a leaf takes where the key comes with its
/// length: the cells before the key and the key itself.
pub open spec fn key_row_len(row: Row) -> int {
    length_byte(row, row.shape()) - 128 + key_start(row.shape())
}

/// Nibbles of the key that the leaf holds. With a length byte `l` the key
/// takes `l - 128` bytes; a key on a byte boundary spends the first of them
/// on the byte 32, one that starts with a single nibble holds that nibble
/// in its first byte. A leaf in the last level holds none and a one-nibble
/// leaf holds one.
pub open spec fn leaf_nibbles(row: Row, shape: LeafShape, odd: bool, even: bool) -> int {
    match shape {
        LeafShape::LastLevel => 0,
        LeafShape::OneNibble => 1,
        _ => {
            let l = length_byte(row, shape) as int;
            (l - 128 - 1) * 2 * b2i(even) + ((l - 128) * 2 - 1) * b2i(odd)
        },
    }
}

/// The power of the challenge under which the bytes after the first key
/// byte enter: one power further where the first byte holds a nibble.
pub open spec fn key_mult(ctx: KeyContext, r: int) -> int {
    fadd(fmul(fmul(ctx.mult, r), b2i(ctx.odd)), fmul(ctx.mult, b2i(ctx.even)))
}

/// What the first key byte adds to the key combination: its nibble (the
/// byte less 48) under the inherited power, where the key starts with a
/// single nibble, and nothing where it starts on a byte boundary.
pub open spec fn first_nibble_term(byte: u8, ctx: KeyContext) -> int {
    fmul(fmul(fsub(byte as int, 48), ctx.mult), b2i(ctx.odd))
}

/// The key combination that a leaf ends with. A leaf in the last level adds
/// nothing to that of the levels above. A one-nibble leaf adds the nibble
/// of its one key byte. A leaf with a key length adds the nibble of its
/// first key byte, and the combination of the 32 cells after that byte.
pub open spec fn key_rlc_value(row: Row, shape: LeafShape, ctx: KeyContext, r: int) -> int {
    match shape {
        LeafShape::LastLevel => ctx.start,
        LeafShape::OneNibble => fadd(ctx.start, first_nibble_term(row.s_main.rlp2, ctx)),
        _ => {
            let cells = row.key_cells();
            let k = key_start(shape);
            fadd(
                fadd(ctx.start, first_nibble_term(cells[k], ctx)),
                fmul(key_mult(ctx, r), rlc(cells.subrange(k + 1, k + 33), r)),
            )
        },
    }
}

/// Whether one named condition holds of the key row at `offset`.
pub open spec fn holds(
    c: LeafKeyConstraint,
    table: Seq<Row>,
    offset: int,
    cfg: LeafKeyConfig,
    r: int,
) -> bool {
    let row = row_at(table, offset, 0);
    let shape = row.shape();
    let ctx = key_context(table, offset, cfg);
    match c {
        LeafKeyConstraint::LongPrefix => shape == LeafShape::Long ==> row.s_main.rlp1 == 248,
        LeafKeyConstraint::LastLevelKeyByte => shape == LeafShape::LastLevel ==> row.s_main.rlp2
            == 32,
        LeafKeyConstraint::LeafRlc => row.acc_s.rlc@ == if shape.has_key_length() {
            rlc(row.key_cells(), r)
        } else {
            rlc(row.key_cells().subrange(0, 2), r)
        },
        LeafKeyConstraint::LeafMult => {
            &&& shape == LeafShape::Short ==> mult_diff_holds(
                row.s_main.rlp2,
                2,
                row.acc_s.mult@,
                r,
            )
            &&& shape == LeafShape::Long ==> mult_diff_holds(
                row.s_main.bytes@[0],
                3,
                row.acc_s.mult@,
                r,
            )
        },
        LeafKeyConstraint::ZeroPadding => shape.has_key_length() ==> zeros_from(
            row.key_cells(),
            key_row_len(row),
        ),
        LeafKeyConstraint::EvenKeyPrefix => shape.has_key_length() && ctx.even
            ==> row.key_cells()[key_start(shape)] == 32,
        LeafKeyConstraint::KeyRlc => row.key.rlc@ == key_rlc_value(row, shape, ctx, r),
        LeafKeyConstraint::NibbleTotal => ctx.ancestors + leaf_nibbles(
            row,
            shape,
            ctx.odd,
            ctx.even,
        ) == 64,
        LeafKeyConstraint::PreviousKeyRlc => ctx.level != Level::First ==> row.key_prev.rlc@
            == if row_at(table, offset, cfg.account_above_branch_rot()).is_account_leaf_in_added_branch {
            0
        } else {
            row_at(table, offset, cfg.previous_level_rot()).key.rlc@
        },
        LeafKeyConstraint::PreviousKeyMult => ctx.level != Level::First ==> row.key_prev.mult@
            == if row_at(table, offset, cfg.account_above_branch_rot()).is_account_leaf_in_added_branch {
            1
        } else {
            row_at(table, offset, cfg.previous_level_rot()).key.mult@
        },
    }
}

/// The first named condition, in the order of `LeafKeyConstraint`, that
/// fails of the key row at `offset`.
pub open spec fn first_violation(
    table: Seq<Row>,
    offset: int,
    cfg: LeafKeyConfig,
    r: int,
) -> Option<LeafKeyConstraint> {
    if !holds(LeafKeyConstraint::LongPrefix, table, offset, cfg, r) {
        Some(LeafKeyConstraint::LongPrefix)
    } else if !holds(LeafKeyConstraint::LastLevelKeyByte, table, offset, cfg, r) {
        Some(LeafKeyConstraint::LastLevelKeyByte)
    } else if !holds(LeafKeyConstraint::LeafRlc, table, offset, cfg, r) {
        Some(LeafKeyConstraint::LeafRlc)
    } else if !holds(LeafKeyConstraint::LeafMult, table, offset, cfg, r) {
        Some(LeafKeyConstraint::LeafMult)
    } else if !holds(LeafKeyConstraint::ZeroPadding, table, offset, cfg, r) {
        Some(LeafKeyConstraint::ZeroPadding)
    } else if !holds(LeafKeyConstraint::EvenKeyPrefix, table, offset, cfg, r) {
        Some(LeafKeyConstraint::EvenKeyPrefix)
    } else if !holds(LeafKeyConstraint::KeyRlc, table, offset, cfg, r) {
        Some(LeafKeyConstraint::KeyRlc)
    } else if !holds(LeafKeyConstraint::NibbleTotal, table, offset, cfg, r) {
        Some(LeafKeyConstraint::NibbleTotal)
    } else if !holds(LeafKeyConstraint::PreviousKeyRlc, table, offset, cfg, r) {
        Some(LeafKeyConstraint::PreviousKeyRlc)
    } else if !holds(LeafKeyConstraint::PreviousKeyMult, table, offset, cfg, r) {
        Some(LeafKeyConstraint::PreviousKeyMult)
    } else {
        None
    }
}

/// Whether the chip accepts the key row at `offset`: every named condition
/// holds.
pub open spec fn satisfied(table: Seq<Row>, offset: int, cfg: LeafKeyConfig, r: int) -> bool {
    forall|c: LeafKeyConstraint| holds(c, table, offset, cfg, r)
}

/// The chip accepts a row exactly when no named condition fails of it.
pub proof fn lemma_satisfied_iff_no_violation(
    table: Seq<Row>,
    offset: int,
    cfg: LeafKeyConfig,
    r: int,
)
    ensures
        satisfied(table, offset, cfg, r) <==> first_violation(table, offset, cfg, r).is_none(),
        first_violation(table, offset, cfg, r) matches Some(c) ==> !holds(
            c,
            table,
            offset,
            cfg,
            r,
        ),
{
    if first_violation(table, offset, cfg, r).is_none() {
        assert forall|c: LeafKeyConstraint| holds(c, table, offset, cfg, r) by {
            match c {
                LeafKeyConstraint::LongPrefix => {},
                LeafKeyConstraint::LastLevelKeyByte => {},
                LeafKeyConstraint::LeafRlc => {},
                LeafKeyConstraint::LeafMult => {},
                LeafKeyConstraint::ZeroPadding => {},
                LeafKeyConstraint::EvenKeyPrefix => {},
                LeafKeyConstraint::KeyRlc => {},
                LeafKeyConstraint::NibbleTotal => {},
                LeafKeyConstraint::PreviousKeyRlc => {},
                LeafKeyConstraint::PreviousKeyMult => {},
            }
        }
    }
}

/// For a leaf that stands under a branch of its own side, neither in the
/// first level nor under a placeholder, the chip accepts the key row only
/// where the nibbles of the levels above and those of the leaf are 64; a row
/// with any other total is rejected.
pub proof fn lemma_nibble_total(table: Seq<Row>, offset: int, cfg: LeafKeyConfig, r: int)
    requires
        level_of(table, offset, cfg) == Level::Regular,
    ensures
        satisfied(table, offset, cfg, r) ==> row_at(
            table,
            offset,
            cfg.init_rot(),
        ).branch.nibbles_count + leaf_nibbles(
            row_at(table, offset, 0),
            row_at(table, offset, 0).shape(),
            row_at(table, offset, cfg.init_rot()).branch.sel_odd,
            row_at(table, offset, cfg.init_rot()).branch.sel_even,
        ) == 64,
        row_at(table, offset, cfg.init_rot()).branch.nibbles_count + leaf_nibbles(
            row_at(table, offset, 0),
            row_at(table, offset, 0).shape(),
            row_at(table, offset, cfg.init_rot()).branch.sel_odd,
            row_at(table, offset, cfg.init_rot()).branch.sel_even,
        ) != 64 ==> first_violation(table, offset, cfg, r).is_some(),
{
    lemma_satisfied_iff_no_violation(table, offset, cfg, r);
    if satisfied(table, offset, cfg, r) {
        assert(holds(LeafKeyConstraint::NibbleTotal, table, offset, cfg, r));
    }
}

/// Nibbles of the key that the leaf holds.
pub fn count_leaf_nibbles(row: &Row, shape: LeafShape, odd: bool, even: bool) -> (n: i32)
    ensures
        n == leaf_nibbles(*row, shape, odd, even),
{
    match shape {
        LeafShape::LastLevel => 0,
        LeafShape::OneNibble => 1,
        _ => {
            let l: i32 = if shape == LeafShape::Long {
                row.s_main.bytes[0] as i32
            } else {
                row.s_main.rlp2 as i32
            };
            let on_even: i32 = if even {
                (l - 128 - 1) * 2
            } else {
                0
            };
            let on_odd: i32 = if odd {
                (l - 128) * 2 - 1
            } else {
                0
            };
            assert((l - 128 - 1) * 2 * b2i(even) == on_even) by (nonlinear_arith)
                requires
                    on_even == if even {
                        (l - 128 - 1) * 2
                    } else {
                        0
                    },
                    b2i(even) == if even {
                        1int
                    } else {
                        0int
                    },
            ;
            assert(((l - 128) * 2 - 1) * b2i(odd) == on_odd) by (nonlinear_arith)
                requires
                    on_odd == if odd {
                        (l - 128) * 2 - 1
                    } else {
                        0
                    },
                    b2i(odd) == if odd {
                        1int
                    } else {
                        0int
                    },
            ;
            on_even + on_odd
        },
    }
}

/// The key combination that a leaf ends with.
pub fn compute_key_rlc(row: &Row, shape: LeafShape, ctx: &Inherited, r: Fe) -> (out: Fe)
    ensures
        out@ == key_rlc_value(*row, shape, ctx@, r@),
{
    let odd: Fe = Fe::from_bool(ctx.odd);
    match shape {
        LeafShape::LastLevel => ctx.start,
        LeafShape::OneNibble => {
            let nibble: Fe = Fe::from_u8(row.s_main.rlp2).sub(Fe::from_u8(48));
            ctx.start.add(nibble.mul(ctx.mult).mul(odd))
        },
        _ => {
            let cells: Vec<u8> = row.key_cells_vec();
            let k: usize = if shape == LeafShape::Long {
                3
            } else {
                2
            };
            assert(cells@.len() == 36);
            let nibble: Fe = Fe::from_u8(cells[k]).sub(Fe::from_u8(48));
            let km: Fe = ctx.mult.mul(r).mul(odd).add(ctx.mult.mul(Fe::from_bool(ctx.even)));
            let rest: Fe = compute_rlc(slice_subrange(cells.as_slice(), k + 1, k + 33), r);
            ctx.start.add(nibble.mul(ctx.mult).mul(odd)).add(km.mul(rest))
        },
    }
}

impl LeafKeyChip {
    /// The configuration of the chip for one side of the update.
    pub fn configure(is_s: bool) -> (config: LeafKeyConfig)
        ensures
            config.is_s == is_s,
    {
        LeafKeyConfig { is_s }
    }

    /// The chip with the given configuration.
    pub fn construct(config: LeafKeyConfig) -> (chip: Self)
        ensures
            chip.spec_config() == config,
    {
        LeafKeyChip { config }
    }

    /// The configuration of the chip.
    pub closed spec fn spec_config(self) -> LeafKeyConfig {
        self.config
    }

    /// The configuration of the chip.
    pub fn config(&self) -> (config: &LeafKeyConfig)
        ensures
            *config == self.spec_config(),
    {
        &self.config
    }

    /// What the key row at `offset` takes over from above.
    pub fn inherited(&self, table: &Vec<Row>, offset: usize) -> (ctx: Inherited)
        ensures
            ctx@ == key_context(table@, offset as int, self.spec_config()),
    {
        let cfg = self.config;
        let init: Row = read_row(table, offset, cfg.rot_into_init());
        let first: bool = read_row(
            table,
            offset,
            cfg.rot_into_account(),
        ).is_account_leaf_in_added_branch;
        let placeholder: bool = if cfg.is_s {
            init.branch.is_s_placeholder
        } else {
            init.branch.is_c_placeholder
        };
        if first {
            Inherited {
                level: Level::First,
                start: Fe::zero(),
                mult: Fe::one(),
                odd: false,
                even: true,
                ancestors: 0,
            }
        } else if placeholder {
            let cur: Row = read_row(table, offset, 0);
            let above: Row = read_row(table, offset, cfg.rot_into_init() - BRANCH_ROWS_NUM);
            if read_row(table, offset, cfg.rot_into_init() - 1).is_account_leaf_in_added_branch {
                Inherited {
                    level: Level::AfterPlaceholder,
                    start: Fe::zero(),
                    mult: Fe::one(),
                    odd: false,
                    even: true,
                    ancestors: 0,
                }
            } else {
                Inherited {
                    level: Level::AfterPlaceholder,
                    start: cur.key_prev.rlc,
                    mult: cur.key_prev.mult,
                    odd: above.branch.sel_odd,
                    even: above.branch.sel_even,
                    ancestors: above.branch.nibbles_count,
                }
            }
        } else {
            let child: Row = read_row(table, offset, cfg.rot_into_init() + 1);
            Inherited {
                level: Level::Regular,
                start: child.key.rlc,
                mult: child.key.mult,
                odd: init.branch.sel_odd,
                even: init.branch.sel_even,
                ancestors: init.branch.nibbles_count,
            }
        }
    }

    /// Holds the key row at `offset` to the chip. An accepted row gives its
    /// shape, the nibbles of its key, its key combination and the
    /// combination of its prefix and key; a rejected row gives the first
    /// condition that fails.
    pub fn check(&self, table: &Vec<Row>, offset: usize, r: Fe) -> (res: Result<
        LeafKeyOutput,
        LeafKeyConstraint,
    >)
        ensures
            res.is_ok() <==> satisfied(table@, offset as int, self.spec_config(), r@),
            res matches Err(c) ==> first_violation(
                table@,
                offset as int,
                self.spec_config(),
                r@,
            ) == Some(c),
            res matches Ok(out) ==> {
                let row = row_at(table@, offset as int, 0);
                let ctx = key_context(table@, offset as int, self.spec_config());
                &&& out.shape == row.shape()
                &&& out.leaf_nibbles == leaf_nibbles(row, row.shape(), ctx.odd, ctx.even)
                &&& ctx.ancestors + out.leaf_nibbles == 64
                &&& out.key_rlc == row.key.rlc
                &&& out.key_rlc@ == key_rlc_value(row, row.shape(), ctx, r@)
                &&& out.leaf_rlc == row.acc_s.rlc
            },
    {
        let cfg = self.config;
        let ghost t = table@;
        let ghost o = offset as int;
        proof {
            lemma_satisfied_iff_no_violation(t, o, cfg, r@);
        }
        let row: Row = read_row(table, offset, 0);
        let shape: LeafShape = LeafShape::from_flags(row.flag1, row.flag2);
        let ctx: Inherited = self.inherited(table, offset);
        let cells: Vec<u8> = row.key_cells_vec();
        assert(cells@.len() == 36);
        let with_length: bool = shape == LeafShape::Long || shape == LeafShape::Short;
        if shape == LeafShape::Long && row.s_main.rlp1 != 248 {
            return Err(LeafKeyConstraint::LongPrefix);
        }
        if shape == LeafShape::LastLevel && row.s_main.rlp2 != 32 {
            return Err(LeafKeyConstraint::LastLevelKeyByte);
        }
        let leaf_rlc: Fe = if with_length {
            compute_rlc(cells.as_slice(), r)
        } else {
            compute_rlc(slice_subrange(cells.as_slice(), 0, 2), r)
        };
        if !leaf_rlc.eq_fe(row.acc_s.rlc) {
            return Err(LeafKeyConstraint::LeafRlc);
        }
        if shape == LeafShape::Short && !mult_diff_lookup(row.s_main.rlp2, 2, row.acc_s.mult, r) {
            return Err(LeafKeyConstraint::LeafMult);
        }
        if shape == LeafShape::Long && !mult_diff_lookup(
            row.s_main.bytes[0],
            3,
            row.acc_s.mult,
            r,
        ) {
            return Err(LeafKeyConstraint::LeafMult);
        }
        let k: usize = if shape == LeafShape::Long {
            3
        } else {
            2
        };
        let length: u8 = if shape == LeafShape::Long {
            row.s_main.bytes[0]
        } else {
            row.s_main.rlp2
        };
        if with_length && !check_zeros_from(cells.as_slice(), length as i64 - 128 + k as i64) {
            return Err(LeafKeyConstraint::ZeroPadding);
        }
        if with_length && ctx.even && cells[k] != 32 {
            return Err(LeafKeyConstraint::EvenKeyPrefix);
        }
        if !compute_key_rlc(&row, shape, &ctx, r).eq_fe(row.key.rlc) {
            return Err(LeafKeyConstraint::KeyRlc);
        }
        let nibbles: i32 = count_leaf_nibbles(&row, shape, ctx.odd, ctx.even);
        if ctx.ancestors as i32 + nibbles != 64 {
            return Err(LeafKeyConstraint::NibbleTotal);
        }
        if ctx.level != Level::First {
            let first_storage_level: bool = read_row(
                table,
                offset,
                cfg.rot_into_init() - 1,
            ).is_account_leaf_in_added_branch;
            let prev: Row = read_row(table, offset, cfg.rot_into_init() - PREVIOUS_LEVEL_DISTANCE);
            let prev_rlc: Fe = if first_storage_level {
                Fe::zero()
            } else {
                prev.key.rlc
            };
            let prev_mult: Fe = if first_storage_level {
                Fe::one()
            } else {
                prev.key.mult
            };
            if !prev_rlc.eq_fe(row.key_prev.rlc) {
                return Err(LeafKeyConstraint::PreviousKeyRlc);
            }
            if !prev_mult.eq_fe(row.key_prev.mult) {
                return Err(LeafKeyConstraint::PreviousKeyMult);
            }
        }
        Ok(LeafKeyOutput { shape, leaf_nibbles: nibbles, key_rlc: row.key.rlc, leaf_rlc: row.acc_s.rlc })
    }
}

} // verus!
