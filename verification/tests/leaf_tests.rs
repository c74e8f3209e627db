use mpt_leaf::field::Fe;
use mpt_leaf::leaf_key::{
    compute_key_rlc, count_leaf_nibbles, LeafKeyChip, LeafKeyConstraint, Level,
};
use mpt_leaf::leaf_value::{
    empty_trie_hash_bytes, is_empty_trie_hash, is_long_value, LeafValueConfig,
    LeafValueConstraint,
};
use mpt_leaf::lookup::{KeccakEntry, KeccakTable};
use mpt_leaf::rlc::compute_rlc;
use mpt_leaf::witness::{
    LeafShape, MptWitnessRow, MptWitnessRowType, ProofValues, Row,
};
use sha3::{Digest, Keccak256};

const KEY_SHORT: [u8; 34] = [
    226, 160, 59, 138, 106, 70, 105, 186, 37, 13, 38, 205, 122, 69, 158, 202, 157, 33, 95, 131, 7,
    227, 58, 235, 229, 3, 121, 188, 90, 54, 23, 236, 52, 68,
];

const KEY_LONG: [u8; 35] = [
    248, 67, 160, 59, 138, 106, 70, 105, 186, 37, 13, 38, 205, 122, 69, 158, 202, 157, 33, 95, 131,
    7, 227, 58, 235, 229, 3, 121, 188, 90, 54, 23, 236, 52, 68,
];

const VALUE_LONG: [u8; 34] = [
    161, 160, 187, 239, 170, 18, 88, 1, 56, 188, 38, 60, 149, 117, 120, 38, 223, 78, 36, 235, 129,
    201, 170, 170, 170, 170, 170, 170, 170, 170, 170, 170, 170, 170,
];

fn challenge() -> Fe {
    Fe::from_limbs(0x9e3779b97f4a7c15, 0xbf58476d1ce4e5b9, 0x94d049bb133111eb, 0x1234567812345678)
        .unwrap()
}

fn keccak(bytes: &[u8]) -> [u8; 32] {
    let mut out = [0u8; 32];
    out.copy_from_slice(&Keccak256::digest(bytes));
    out
}

/// A witness row of 70 bytes: `head`, zeros, and the tag of the row's kind.
fn witness_row(head: &[u8], tag: u8) -> MptWitnessRow {
    let mut bytes = vec![0u8; 70];
    bytes[..head.len()].copy_from_slice(head);
    bytes[69] = tag;
    MptWitnessRow::new(bytes)
}

fn shape_flags(shape: LeafShape) -> (bool, bool) {
    match shape {
        LeafShape::Long => (true, false),
        LeafShape::Short => (false, true),
        LeafShape::LastLevel => (true, true),
        LeafShape::OneNibble => (false, false),
    }
}

/// Bytes that the leaf's key row holds, by its shape.
fn key_row_len(head: &[u8], shape: LeafShape) -> u32 {
    match shape {
        LeafShape::Short => head[1] as u32 - 128 + 2,
        LeafShape::Long => head[2] as u32 - 128 + 3,
        _ => 2,
    }
}

struct Scenario {
    table: Vec<Row>,
    witness: Vec<MptWitnessRow>,
    keccak: KeccakTable,
    /// Position of the key row of the S leaf.
    leaf: usize,
}

/// A branch of 19 rows with a storage leaf of 6 rows under it. The branch
/// hands on the key accumulator `(start, mult)`, the parity `odd` and the
/// count `ancestors`.
fn under_branch(ancestors: u8, odd: bool, start: Fe, mult: Fe) -> Scenario {
    let mut table = Vec::new();
    let mut witness = Vec::new();
    for i in 0..25 {
        let mut row = Row::blank();
        row.not_first_level = true;
        if i == 0 {
            row.branch.sel_odd = odd;
            row.branch.sel_even = !odd;
            row.branch.nibbles_count = ancestors;
        }
        if (1..=16).contains(&i) {
            row.key.rlc = start;
            row.key.mult = mult;
        }
        table.push(row);
        witness.push(witness_row(&[], if i == 0 { 0 } else { 1 }));
    }
    Scenario { table, witness, keccak: KeccakTable::new(), leaf: 19 }
}

/// An account leaf of 8 rows with a storage leaf of 6 rows right under it.
fn under_account(root_s: [u8; 32], root_c: [u8; 32]) -> Scenario {
    let mut table = Vec::new();
    let mut witness = Vec::new();
    let tags = [6u8, 4, 18, 7, 8, 9, 11, 10];
    for i in 0..14 {
        let mut row = Row::blank();
        row.not_first_level = true;
        let mut head = vec![0u8; 34];
        if i == 5 {
            head[1] = 160;
            head[2..34].copy_from_slice(&root_s);
            row.s_main.rlp2 = 160;
            row.s_main.bytes = root_s;
        }
        if i == 6 {
            head[1] = 160;
            head[2..34].copy_from_slice(&root_c);
            row.s_main.rlp2 = 160;
            row.s_main.bytes = root_c;
        }
        if i == 7 {
            row.is_account_leaf_in_added_branch = true;
        }
        table.push(row);
        witness.push(witness_row(&head, if i < 8 { tags[i] } else { 1 }));
    }
    Scenario { table, witness, keccak: KeccakTable::new(), leaf: 8 }
}

impl Scenario {
    fn key_offset(&self, is_s: bool) -> usize {
        if is_s {
            self.leaf
        } else {
            self.leaf + 2
        }
    }

    /// Puts a leaf's key row in place and fills its accumulators.
    fn put_key(&mut self, is_s: bool, head: &[u8], shape: LeafShape) {
        let r = challenge();
        let offset = self.key_offset(is_s);
        let w = witness_row(head, if is_s { 2 } else { 3 });
        let mut row = w.to_row();
        row.not_first_level = true;
        let (flag1, flag2) = shape_flags(shape);
        row.flag1 = flag1;
        row.flag2 = flag2;
        let cells = row.key_cells_vec();
        row.acc_s.rlc = match shape {
            LeafShape::Long | LeafShape::Short => compute_rlc(&cells, r),
            _ => compute_rlc(&cells[0..2], r),
        };
        row.acc_s.mult = r.pow(key_row_len(head, shape));
        self.table[offset] = row;
        self.witness[offset] = w;
        let chip = LeafKeyChip::construct(LeafKeyChip::configure(is_s));
        let ctx = chip.inherited(&self.table, offset);
        row.key.rlc = compute_key_rlc(&row, shape, &ctx, r);
        self.table[offset] = row;
    }

    /// Puts a leaf's value row in place and assigns it.
    fn put_value(&mut self, is_s: bool, head: &[u8], rlc1: Fe) -> ProofValues {
        let r = challenge();
        let offset = self.key_offset(is_s) + 1;
        let w = witness_row(head, if is_s { 13 } else { 14 });
        let mut row = w.to_row();
        row.not_first_level = true;
        self.table[offset] = row;
        self.witness[offset] = w;
        let key_row = self.table[offset - 1];
        let mut pv = ProofValues {
            acc_s: key_row.acc_s.rlc,
            acc_mult_s: key_row.acc_s.mult,
            acc_c: Fe::zero(),
            acc_mult_c: Fe::zero(),
            rlc1,
            rlc2: key_row.key.rlc,
        };
        LeafValueConfig::configure(is_s).assign(&mut self.table, &self.witness, &mut pv, offset, r);
        pv
    }

    /// Records the hash of `leaf` as the modified child of the branch above
    /// and in the hash table.
    fn hash_in_parent(&mut self, is_s: bool, leaf: &[u8]) {
        let r = challenge();
        let digest = keccak(leaf);
        self.keccak.insert(leaf, &digest, r);
        for i in 1..=16 {
            if is_s {
                self.table[i].s_mod_node_rlc = compute_rlc(&digest, r);
            } else {
                self.table[i].c_mod_node_rlc = compute_rlc(&digest, r);
            }
        }
    }

    fn check_key(&self, is_s: bool) -> Result<mpt_leaf::leaf_key::LeafKeyOutput, LeafKeyConstraint> {
        LeafKeyChip::construct(LeafKeyChip::configure(is_s)).check(
            &self.table,
            self.key_offset(is_s),
            challenge(),
        )
    }

    fn check_value(
        &self,
        is_s: bool,
    ) -> Result<mpt_leaf::leaf_value::LeafValueOutput, LeafValueConstraint> {
        LeafValueConfig::configure(is_s).check(
            &self.table,
            &self.keccak,
            self.key_offset(is_s) + 1,
            challenge(),
        )
    }
}

/// The leaf with a 63-nibble key and the value 1 on the S side, and the same
/// key with a 32-byte value on the C side, under a branch that used one
/// nibble.
fn short_and_long() -> Scenario {
    let mut s = under_branch(1, true, Fe::from_u64(2 * 16), Fe::one());
    s.put_key(true, &KEY_SHORT, LeafShape::Short);
    let pv = s.put_value(true, &[1], Fe::zero());
    s.put_key(false, &KEY_LONG, LeafShape::Long);
    s.put_value(false, &VALUE_LONG, pv.rlc1);
    let mut leaf_s = KEY_SHORT.to_vec();
    leaf_s.push(1);
    s.hash_in_parent(true, &leaf_s);
    let mut leaf_c = KEY_LONG.to_vec();
    leaf_c.extend_from_slice(&VALUE_LONG);
    s.hash_in_parent(false, &leaf_c);
    s
}

#[test]
fn short_leaf_with_one_byte_value() {
    let s = short_and_long();
    let r = challenge();
    let key = s.check_key(true).unwrap();
    assert_eq!(key.shape, LeafShape::Short);
    assert_eq!(key.leaf_nibbles, 63);
    assert_eq!(key.leaf_rlc, compute_rlc(&KEY_SHORT, r));
    let value = s.check_value(true).unwrap();
    assert_eq!(value.value_rlc, Fe::from_u64(1));
    assert_eq!(value.leaf_len, 35);
    let mut leaf = KEY_SHORT.to_vec();
    leaf.push(1);
    assert_eq!(value.leaf_rlc, compute_rlc(&leaf, r));
    let row = s.table[20];
    assert!(!row.flag1);
    assert!(row.flag2);
}

#[test]
fn key_rlc_of_the_short_leaf_by_hand() {
    let s = short_and_long();
    let r = challenge();
    let key = s.check_key(true).unwrap();
    // the branch left 2 * 16; the first key byte holds the nibble 59 - 48,
    // and the 31 bytes after it enter from the first power on
    let mut expected = Fe::from_u64(32 + 11);
    let mut power = r;
    for b in &KEY_SHORT[3..34] {
        expected = expected.add(Fe::from_u8(*b).mul(power));
        power = power.mul(r);
    }
    assert_eq!(key.key_rlc, expected);
}

#[test]
fn long_value_leaf() {
    let s = short_and_long();
    let r = challenge();
    let key = s.check_key(false).unwrap();
    assert_eq!(key.shape, LeafShape::Long);
    assert_eq!(key.leaf_nibbles, 63);
    assert_eq!(key.leaf_nibbles + s.table[0].branch.nibbles_count as i32, 64);
    let value = s.check_value(false).unwrap();
    assert_eq!(value.leaf_len, 69);
    assert_eq!(value.value_rlc, compute_rlc(&VALUE_LONG[2..], r));
    let mut leaf = KEY_LONG.to_vec();
    leaf.extend_from_slice(&VALUE_LONG);
    assert_eq!(value.leaf_rlc, compute_rlc(&leaf, r));
    let row = s.table[22];
    assert!(row.flag1);
    assert!(!row.flag2);
    // the C row carries the key and both values for lookups from outside
    assert_eq!(row.key.mult, s.table[21].key.rlc);
    assert_eq!(row.value_prev, Fe::from_u64(1));
    assert_eq!(row.value, value.value_rlc);
    // both sides hold the same key
    assert_eq!(s.table[19].key.rlc, s.table[21].key.rlc);
}

fn tiny(second: u8, shape: LeafShape, ancestors: u8) -> Scenario {
    let r = challenge();
    let mut s = under_branch(ancestors, false, Fe::from_u64(77), r.pow(31));
    s.put_key(true, &[194, second], shape);
    s.put_value(true, &[1], Fe::zero());
    // three bytes are not hashed: the parent holds the leaf itself
    let leaf = compute_rlc(&[194, second, 1], r);
    for i in 1..=16 {
        s.table[i].s_mod_node_rlc = leaf;
    }
    s
}

#[test]
fn last_level_leaf() {
    let s = tiny(32, LeafShape::LastLevel, 64);
    let key = s.check_key(true).unwrap();
    assert_eq!(key.shape, LeafShape::LastLevel);
    assert_eq!(key.leaf_nibbles, 0);
    assert_eq!(key.key_rlc, Fe::from_u64(77));
    let value = s.check_value(true).unwrap();
    assert_eq!(value.leaf_len, 3);
    assert_eq!(value.value_rlc, Fe::from_u64(1));
    assert_eq!(tiny(32, LeafShape::LastLevel, 63).check_key(true).unwrap_err(), LeafKeyConstraint::NibbleTotal);
}

#[test]
fn one_nibble_leaf() {
    let s = tiny(48, LeafShape::OneNibble, 63);
    let key = s.check_key(true).unwrap();
    assert_eq!(key.shape, LeafShape::OneNibble);
    assert_eq!(key.leaf_nibbles, 1);
    assert!(s.check_value(true).is_ok());
    assert_eq!(tiny(48, LeafShape::OneNibble, 64).check_key(true).unwrap_err(), LeafKeyConstraint::NibbleTotal);
    assert_eq!(tiny(48, LeafShape::OneNibble, 62).check_key(true).unwrap_err(), LeafKeyConstraint::NibbleTotal);
}

#[test]
fn any_other_nibble_total_is_rejected() {
    for ancestors in [0u8, 2, 3, 63, 64, 65] {
        let mut s = short_and_long();
        s.table[0].branch.nibbles_count = ancestors;
        assert_eq!(s.check_key(true).unwrap_err(), LeafKeyConstraint::NibbleTotal);
        assert_eq!(s.check_key(false).unwrap_err(), LeafKeyConstraint::NibbleTotal);
    }
}

#[test]
fn exactly_one_shape_per_pair_of_flags() {
    let shapes = [LeafShape::Long, LeafShape::Short, LeafShape::LastLevel, LeafShape::OneNibble];
    for flag1 in [false, true] {
        for flag2 in [false, true] {
            let shape = LeafShape::from_flags(flag1, flag2);
            assert_eq!(shapes.iter().filter(|s| **s == shape).count(), 1);
            assert_eq!(shape_flags(shape), (flag1, flag2));
        }
    }
}

#[test]
fn leaf_nibbles_by_shape_and_parity() {
    let mut row = Row::blank();
    row.s_main.rlp2 = 160;
    row.s_main.bytes[0] = 150;
    // 32 key bytes: 63 nibbles behind a single nibble, 62 behind the byte 32
    assert_eq!(count_leaf_nibbles(&row, LeafShape::Short, true, false), 63);
    assert_eq!(count_leaf_nibbles(&row, LeafShape::Short, false, true), 62);
    // 22 key bytes
    assert_eq!(count_leaf_nibbles(&row, LeafShape::Long, true, false), 43);
    assert_eq!(count_leaf_nibbles(&row, LeafShape::Long, false, true), 42);
    assert_eq!(count_leaf_nibbles(&row, LeafShape::LastLevel, true, false), 0);
    assert_eq!(count_leaf_nibbles(&row, LeafShape::OneNibble, false, true), 1);
    assert_eq!(count_leaf_nibbles(&row, LeafShape::Short, false, false), 0);
}

#[test]
fn key_row_conditions_fail_one_by_one() {
    let r = challenge();
    let mut s = short_and_long();
    s.table[21].s_main.rlp1 = 247;
    assert_eq!(s.check_key(false).unwrap_err(), LeafKeyConstraint::LongPrefix);

    let mut s = tiny(32, LeafShape::LastLevel, 64);
    s.table[19].s_main.rlp2 = 33;
    assert_eq!(s.check_key(true).unwrap_err(), LeafKeyConstraint::LastLevelKeyByte);

    let mut s = short_and_long();
    s.table[19].acc_s.rlc = s.table[19].acc_s.rlc.add(Fe::one());
    assert_eq!(s.check_key(true).unwrap_err(), LeafKeyConstraint::LeafRlc);

    let mut s = short_and_long();
    s.table[19].s_main.bytes[5] ^= 1;
    assert_eq!(s.check_key(true).unwrap_err(), LeafKeyConstraint::LeafRlc);

    let mut s = short_and_long();
    s.table[19].acc_s.mult = r.pow(33);
    assert_eq!(s.check_key(true).unwrap_err(), LeafKeyConstraint::LeafMult);

    let mut s = short_and_long();
    s.table[21].acc_s.mult = r.pow(34);
    assert_eq!(s.check_key(false).unwrap_err(), LeafKeyConstraint::LeafMult);

    let mut s = short_and_long();
    s.table[0].branch.sel_odd = false;
    s.table[0].branch.sel_even = true;
    assert_eq!(s.check_key(true).unwrap_err(), LeafKeyConstraint::EvenKeyPrefix);

    let mut s = short_and_long();
    s.table[19].key.rlc = s.table[19].key.rlc.add(Fe::one());
    assert_eq!(s.check_key(true).unwrap_err(), LeafKeyConstraint::KeyRlc);

    let mut s = short_and_long();
    s.table[1].key.rlc = Fe::from_u64(3 * 16);
    assert_eq!(s.check_key(true).unwrap_err(), LeafKeyConstraint::KeyRlc);

    let mut s = tiny(32, LeafShape::LastLevel, 64);
    s.table[19].key.rlc = Fe::from_u64(78);
    assert_eq!(s.check_key(true).unwrap_err(), LeafKeyConstraint::KeyRlc);

    let mut s = short_and_long();
    s.table[19].key_prev.rlc = Fe::one();
    assert_eq!(s.check_key(true).unwrap_err(), LeafKeyConstraint::PreviousKeyRlc);

    let mut s = short_and_long();
    s.table[19].key_prev.mult = Fe::one();
    assert_eq!(s.check_key(true).unwrap_err(), LeafKeyConstraint::PreviousKeyMult);
}

#[test]
fn value_row_conditions_fail_one_by_one() {
    let mut s = short_and_long();
    s.table[20].flag1 = true;
    assert_eq!(s.check_value(true).unwrap_err(), LeafValueConstraint::ValueFlags);

    let mut s = short_and_long();
    s.table[20].acc_c.rlc = Fe::from_u64(2);
    assert_eq!(s.check_value(true).unwrap_err(), LeafValueConstraint::ValueRlc);

    let mut s = short_and_long();
    s.table[20].acc_s.rlc = s.table[20].acc_s.rlc.add(Fe::one());
    assert_eq!(s.check_value(true).unwrap_err(), LeafValueConstraint::LeafRlc);

    let mut s = short_and_long();
    s.table[22].key.mult = Fe::one();
    assert_eq!(s.check_value(false).unwrap_err(), LeafValueConstraint::KeyRlcCopy);

    let mut s = short_and_long();
    s.table[22].value_prev = Fe::from_u64(2);
    assert_eq!(s.check_value(false).unwrap_err(), LeafValueConstraint::ValuePrev);

    let mut s = short_and_long();
    s.table[22].value = Fe::from_u64(2);
    assert_eq!(s.check_value(false).unwrap_err(), LeafValueConstraint::ValueCopy);

    // the key row declares one byte more than key and value take
    let mut s = under_branch(1, true, Fe::from_u64(32), Fe::one());
    let mut head = KEY_SHORT;
    head[0] = 227;
    s.put_key(true, &head, LeafShape::Short);
    s.put_value(true, &[1], Fe::zero());
    assert_eq!(s.check_value(true).unwrap_err(), LeafValueConstraint::RlpLength);

    // a long value that declares 31 bytes under a key row that leaves room for 34
    let mut s = short_and_long();
    let mut head = VALUE_LONG;
    head[1] = 159;
    head[33] = 0;
    s.put_value(false, &head, Fe::from_u64(1));
    assert_eq!(s.check_value(false).unwrap_err(), LeafValueConstraint::RlpLength);

    let mut s = tiny(32, LeafShape::LastLevel, 64);
    s.table[14].s_mod_node_rlc = Fe::one();
    assert_eq!(s.check_value(true).unwrap_err(), LeafValueConstraint::UnhashedInParent);

    let mut s = short_and_long();
    s.table[14].s_mod_node_rlc = Fe::one();
    assert_eq!(s.check_value(true).unwrap_err(), LeafValueConstraint::HashInParent);

    let mut s = short_and_long();
    s.keccak = KeccakTable::new();
    assert_eq!(s.check_value(false).unwrap_err(), LeafValueConstraint::HashInParent);

}

#[test]
fn cells_after_the_value_are_zero() {
    let mut s = short_and_long();
    s.table[20].s_main.bytes[7] = 1;
    assert_eq!(s.check_value(true).unwrap_err(), LeafValueConstraint::ZeroPadding);
}

#[test]
fn the_wrong_length_is_not_in_the_hash_table() {
    let r = challenge();
    let s = short_and_long();
    let mut leaf = KEY_SHORT.to_vec();
    leaf.push(1);
    let input = compute_rlc(&leaf, r);
    let output = compute_rlc(&keccak(&leaf), r);
    assert!(s.keccak.lookup(input, 35, output));
    assert!(!s.keccak.lookup(input, 34, output));
    assert!(!s.keccak.lookup(input, 36, output));
    assert!(!s.keccak.lookup(input, -1, output));
    assert!(!s.keccak.lookup(input, 35, output.add(Fe::one())));
    assert!(!s.keccak.lookup(input, 35, compute_rlc(&keccak(&KEY_SHORT), r)));
    assert!(!s.keccak.lookup(input.add(Fe::one()), 35, output));
    assert_eq!(s.keccak.entries.len(), 2);
    let first: KeccakEntry = s.keccak.entries[0];
    assert_eq!(first.input_len, 35);
}

#[test]
fn a_leaf_too_short_to_hash_needs_no_hash_table() {
    let mut s = tiny(48, LeafShape::OneNibble, 63);
    assert!(s.check_value(true).is_ok());
    let r = challenge();
    s.keccak.insert(&[194, 48, 1], &keccak(&[194, 48, 1]), r);
    assert!(s.check_value(true).is_ok());
    // the hash of the leaf in the parent is of no use
    let digest = compute_rlc(&keccak(&[194, 48, 1]), r);
    for i in 1..=16 {
        s.table[i].s_mod_node_rlc = digest;
    }
    assert_eq!(s.check_value(true).unwrap_err(), LeafValueConstraint::UnhashedInParent);
}

/// A leaf with all 64 nibbles in its key, right under the account.
fn first_level_head() -> Vec<u8> {
    let mut head = vec![227u8, 161, 32];
    for i in 0..32u8 {
        head.push(200 - i);
    }
    head
}

fn only_leaf() -> (Scenario, Vec<u8>) {
    let head = first_level_head();
    let mut leaf = head.clone();
    leaf.push(17);
    let root = keccak(&leaf);
    let mut s = under_account(root, root);
    s.put_key(true, &head, LeafShape::Short);
    s.put_value(true, &[17], Fe::zero());
    s.keccak.insert(&leaf, &root, challenge());
    (s, leaf)
}

#[test]
fn the_only_leaf_hashes_to_the_storage_root() {
    let (s, leaf) = only_leaf();
    let r = challenge();
    let ctx = LeafKeyChip::construct(LeafKeyChip::configure(true)).inherited(&s.table, 8);
    assert_eq!(ctx.level, Level::First);
    assert_eq!(ctx.start, Fe::zero());
    assert_eq!(ctx.mult, Fe::one());
    let key = s.check_key(true).unwrap();
    assert_eq!(key.leaf_nibbles, 64);
    assert_eq!(key.key_rlc, compute_rlc(&first_level_head()[3..], r));
    let value = s.check_value(true).unwrap();
    assert_eq!(value.leaf_len, 36);
    assert_eq!(value.leaf_rlc, compute_rlc(&leaf, r));

    let (mut s, _) = only_leaf();
    s.table[5].s_main.bytes[0] ^= 1;
    assert_eq!(s.check_value(true).unwrap_err(), LeafValueConstraint::HashIsStorageRoot);
}

#[test]
fn a_first_level_key_starts_on_a_byte_boundary() {
    let (mut s, _) = only_leaf();
    let mut head = first_level_head();
    head[2] = 59;
    s.put_key(true, &head, LeafShape::Short);
    assert_eq!(s.check_key(true).unwrap_err(), LeafKeyConstraint::EvenKeyPrefix);
    // a key of 31 bytes after the byte 32 has 62 nibbles
    let mut head = first_level_head();
    head[1] = 160;
    head[34] = 0;
    s.put_key(true, &head, LeafShape::Short);
    assert_eq!(s.check_key(true).unwrap_err(), LeafKeyConstraint::NibbleTotal);
}

#[test]
fn empty_trie_hash_is_the_hash_of_the_empty_string() {
    assert_eq!(empty_trie_hash_bytes(), keccak(&[0x80]));
    assert!(is_empty_trie_hash(&keccak(&[0x80])));
    assert!(!is_empty_trie_hash(&keccak(&[0xc0])));
    assert!(!is_empty_trie_hash(&[86, 232]));
}

/// A storage trie that lost its last entry: a placeholder leaf under the
/// account on the C side.
fn after_delete(root_c: [u8; 32]) -> Scenario {
    let (mut s, _) = only_leaf();
    let root_s = s.table[5].s_main.bytes;
    let mut fresh = under_account(root_s, root_c);
    fresh.keccak = std::mem::replace(&mut s.keccak, KeccakTable::new());
    fresh.table[8] = s.table[8];
    fresh.table[9] = s.table[9];
    fresh.witness[8] = witness_row(&first_level_head(), 2);
    fresh.witness[9] = witness_row(&[17], 13);
    // the placeholder rows are empty but for the flags of a short leaf
    fresh.table[10].flag2 = true;
    fresh.put_value(false, &[], fresh.table[9].acc_c.rlc);
    fresh
}

#[test]
fn deleting_the_last_entry_leaves_the_empty_root() {
    let s = after_delete(empty_trie_hash_bytes());
    // the assignment marks the placeholder
    assert!(s.table[11].sel2);
    assert!(!s.table[9].sel1);
    assert!(s.check_value(true).is_ok());
    assert!(s.check_value(false).is_ok());
    assert_eq!(s.table[11].value_prev, Fe::from_u64(17));
    assert_eq!(s.table[11].value, Fe::zero());

    // any other root under the marked placeholder is rejected
    let mut s = after_delete(empty_trie_hash_bytes());
    s.table[6].s_main.bytes[31] ^= 1;
    assert_eq!(s.check_value(false).unwrap_err(), LeafValueConstraint::EmptyTrieRoot);

    // with another root the assignment sets no mark, and the empty rows are
    // held to the lengths and to the hash
    let mut other = empty_trie_hash_bytes();
    other[0] ^= 1;
    let s = after_delete(other);
    assert!(!s.table[11].sel2);
    assert_eq!(s.check_value(false).unwrap_err(), LeafValueConstraint::RlpLength);
}

#[test]
fn assignment_of_a_value_row() {
    let r = challenge();
    let s = short_and_long();
    let key = s.table[21];
    let row = s.table[22];
    assert_eq!(row.acc_s.rlc, key.acc_s.rlc.add(key.acc_s.mult.mul(compute_rlc(&VALUE_LONG, r))));
    assert_eq!(row.acc_s.mult, r.pow(35 + 34));
    assert_eq!(row.acc_c.rlc, compute_rlc(&VALUE_LONG[2..], r));
    assert_eq!(row.acc_c.mult, Fe::zero());
    assert_eq!(row.proof_type, 0);
    assert_eq!(row.s_main.rlp1, 161);
    assert!(!row.sel1 && !row.sel2);

    let mut s = short_and_long();
    s.witness[22].is_storage_mod = true;
    let mut pv = ProofValues {
        acc_s: key.acc_s.rlc,
        acc_mult_s: key.acc_s.mult,
        acc_c: Fe::one(),
        acc_mult_c: Fe::one(),
        rlc1: Fe::from_u64(5),
        rlc2: Fe::from_u64(6),
    };
    LeafValueConfig::configure(false).assign(&mut s.table, &s.witness, &mut pv, 22, r);
    assert_eq!(s.table[22].proof_type, 6);
    assert_eq!(s.table[22].value_prev, Fe::from_u64(5));
    assert_eq!(s.table[22].key.mult, Fe::from_u64(6));
    assert_eq!(pv.rlc1, Fe::from_u64(5));
    assert_eq!(pv.rlc2, Fe::from_u64(6));
    assert_eq!(pv.acc_mult_c, r.pow(34));
    assert_eq!(pv.acc_c, s.table[22].value);

    let mut s = short_and_long();
    s.witness[20].is_storage_mod = true;
    let key = s.table[19];
    let mut pv = ProofValues {
        acc_s: key.acc_s.rlc,
        acc_mult_s: key.acc_s.mult,
        acc_c: Fe::one(),
        acc_mult_c: Fe::one(),
        rlc1: Fe::from_u64(5),
        rlc2: Fe::from_u64(6),
    };
    LeafValueConfig::configure(true).assign(&mut s.table, &s.witness, &mut pv, 20, r);
    assert_eq!(s.table[20].proof_type, 0);
    assert_eq!(pv.rlc1, Fe::from_u64(1));
    assert_eq!(pv.acc_s, s.table[20].acc_s.rlc);
}

#[test]
fn witness_rows_tell_their_kind() {
    assert_eq!(witness_row(&KEY_SHORT, 2).get_type(), MptWitnessRowType::StorageLeafSKey);
    assert_eq!(witness_row(&[1], 13).get_type(), MptWitnessRowType::StorageLeafSValue);
    assert_eq!(witness_row(&[1], 14).get_type(), MptWitnessRowType::StorageLeafCValue);
    assert_eq!(witness_row(&[1], 9).get_type(), MptWitnessRowType::AccountLeafRootCodehashS);
    assert_eq!(witness_row(&[1], 11).get_type(), MptWitnessRowType::AccountLeafRootCodehashC);
    assert_eq!(witness_row(&[1], 10).get_type(), MptWitnessRowType::AccountLeafNeighbouringLeaf);
    assert_eq!(witness_row(&[1], 77).get_type(), MptWitnessRowType::Other);
    assert_eq!(MptWitnessRow::new(vec![]).get_type(), MptWitnessRowType::Other);
    let w = witness_row(&KEY_SHORT, 2);
    assert_eq!(w.len(), 70);
    assert_eq!(w.get_byte(0), 226);
    assert_eq!(w.s_hash_bytes(), &KEY_SHORT[2..34]);
    let row = w.to_row();
    assert_eq!(row.s_main.rlp1, 226);
    assert_eq!(row.s_main.rlp2, 160);
    assert_eq!(row.s_main.bytes[31], 68);
    assert_eq!(row.c_main.rlp1, 0);
    assert_eq!(row.key_cells_vec().len(), 36);
}

/// Blank rows below the first level.
fn blank_rows(n: usize) -> (Vec<Row>, Vec<MptWitnessRow>) {
    let mut table = Vec::new();
    let mut witness = Vec::new();
    for _ in 0..n {
        let mut row = Row::blank();
        row.not_first_level = true;
        table.push(row);
        witness.push(witness_row(&[], 1));
    }
    (table, witness)
}

/// A branch, under it a branch that is a placeholder on the S side, and
/// under that the leaf: the leaf that stood in the place of the new branch.
fn under_placeholder() -> (Scenario, Vec<u8>) {
    let r = challenge();
    let (mut table, witness) = blank_rows(44);
    table[0].branch.sel_odd = true;
    table[0].branch.nibbles_count = 1;
    for i in 1..=16 {
        table[i].key.rlc = Fe::from_u64(32);
        table[i].key.mult = Fe::one();
    }
    table[19].branch.is_s_placeholder = true;
    table[19].branch.sel_even = true;
    table[19].branch.nibbles_count = 2;
    for i in 20..=35 {
        table[i].key.rlc = Fe::from_u64(32 + 11);
        table[i].key.mult = r;
    }
    let mut s = Scenario { table, witness, keccak: KeccakTable::new(), leaf: 38 };
    s.table[38].key_prev.rlc = Fe::from_u64(32);
    s.table[38].key_prev.mult = Fe::one();
    let prev = s.table[38].key_prev;
    s.put_key(true, &KEY_SHORT, LeafShape::Short);
    s.table[38].key_prev = prev;
    let chip = LeafKeyChip::construct(LeafKeyChip::configure(true));
    let ctx = chip.inherited(&s.table, 38);
    s.table[38].key.rlc = compute_key_rlc(&s.table[38], LeafShape::Short, &ctx, r);
    s.put_value(true, &[1], Fe::zero());
    let mut leaf = KEY_SHORT.to_vec();
    leaf.push(1);
    let digest = keccak(&leaf);
    s.keccak.insert(&leaf, &digest, r);
    // the branch above the placeholder holds the hash of the leaf
    for i in 1..=16 {
        s.table[i].s_mod_node_rlc = compute_rlc(&digest, r);
    }
    (s, leaf)
}

#[test]
fn a_leaf_under_a_placeholder_hangs_on_the_branch_above() {
    let (s, leaf) = under_placeholder();
    let r = challenge();
    let ctx = LeafKeyChip::construct(LeafKeyChip::configure(true)).inherited(&s.table, 38);
    assert_eq!(ctx.level, Level::AfterPlaceholder);
    assert_eq!(ctx.start, Fe::from_u64(32));
    assert_eq!(ctx.mult, Fe::one());
    assert!(ctx.odd);
    assert_eq!(ctx.ancestors, 1);
    let key = s.check_key(true).unwrap();
    assert_eq!(key.leaf_nibbles, 63);
    // the key is that of the same leaf right under the branch above
    assert_eq!(key.key_rlc, short_and_long().table[19].key.rlc);
    let value = s.check_value(true).unwrap();
    assert_eq!(value.leaf_rlc, compute_rlc(&leaf, r));

    let (mut s, _) = under_placeholder();
    s.table[16].s_mod_node_rlc = Fe::one();
    assert_eq!(s.check_value(true).unwrap_err(), LeafValueConstraint::HashAbovePlaceholder);

    let (mut s, _) = under_placeholder();
    s.table[38].key_prev.rlc = Fe::from_u64(33);
    assert_eq!(s.check_key(true).unwrap_err(), LeafKeyConstraint::KeyRlc);

    let (mut s, _) = under_placeholder();
    s.table[14].key.rlc = Fe::from_u64(33);
    assert_eq!(s.check_key(true).unwrap_err(), LeafKeyConstraint::PreviousKeyRlc);

    let (mut s, _) = under_placeholder();
    s.table[14].key.mult = r;
    assert_eq!(s.check_key(true).unwrap_err(), LeafKeyConstraint::PreviousKeyMult);

    // the C side has the branch: its leaf is held to the new branch
    let (s, _) = under_placeholder();
    let ctx = LeafKeyChip::construct(LeafKeyChip::configure(false)).inherited(&s.table, 40);
    assert_eq!(ctx.level, Level::Regular);
    assert_eq!(ctx.start, Fe::from_u64(43));
    assert_eq!(ctx.mult, r);
    assert!(ctx.even);
    assert_eq!(ctx.ancestors, 2);
}

/// The account, under it a branch that is a placeholder on the S side, and
/// under that the only leaf of the S trie.
fn only_leaf_under_placeholder() -> Scenario {
    let r = challenge();
    let head = first_level_head();
    let mut leaf = head.clone();
    leaf.push(17);
    let root = keccak(&leaf);
    let (mut table, witness) = blank_rows(33);
    table[5].s_main.bytes = root;
    table[7].is_account_leaf_in_added_branch = true;
    table[8].branch.is_s_placeholder = true;
    table[8].branch.sel_odd = true;
    table[8].branch.nibbles_count = 1;
    let mut s = Scenario { table, witness, keccak: KeccakTable::new(), leaf: 27 };
    s.table[27].key_prev.mult = Fe::one();
    s.put_key(true, &head, LeafShape::Short);
    s.table[27].key_prev.mult = Fe::one();
    s.put_value(true, &[17], Fe::zero());
    s.keccak.insert(&leaf, &root, r);
    s
}

#[test]
fn the_only_leaf_under_a_placeholder_hashes_to_the_storage_root() {
    let s = only_leaf_under_placeholder();
    let ctx = LeafKeyChip::construct(LeafKeyChip::configure(true)).inherited(&s.table, 27);
    assert_eq!(ctx.level, Level::AfterPlaceholder);
    assert_eq!(ctx.start, Fe::zero());
    assert_eq!(ctx.mult, Fe::one());
    assert!(ctx.even && !ctx.odd);
    assert_eq!(ctx.ancestors, 0);
    assert_eq!(s.check_key(true).unwrap().leaf_nibbles, 64);
    assert!(s.check_value(true).is_ok());

    let mut s = only_leaf_under_placeholder();
    s.table[5].s_main.bytes[3] ^= 1;
    assert_eq!(
        s.check_value(true).unwrap_err(),
        LeafValueConstraint::HashIsStorageRootAbovePlaceholder
    );

    let mut s = only_leaf_under_placeholder();
    s.table[27].key_prev.mult = Fe::zero();
    assert_eq!(s.check_key(true).unwrap_err(), LeafKeyConstraint::PreviousKeyMult);
}

#[test]
fn an_empty_child_is_held_to_nothing_but_zeros() {
    // the modified child of the branch is empty on the S side: the leaf
    // rows are a placeholder
    let mut s = under_branch(1, true, Fe::from_u64(32), Fe::one());
    for i in 1..=16 {
        s.table[i].sel1 = true;
    }
    s.table[19].flag2 = true;
    s.put_value(true, &[], Fe::zero());
    assert!(s.check_value(true).is_ok());
    s.table[20].s_main.bytes[0] = 1;
    assert_eq!(s.check_value(true).unwrap_err(), LeafValueConstraint::ZeroPadding);
}

/// A one-nibble leaf with the nibble `nibble` under a branch that hands on
/// `(start, mult)`, an odd rest and 63 nibbles.
fn single_nibble(nibble: u8, start: Fe, mult: Fe) -> Scenario {
    let mut s = under_branch(63, true, start, mult);
    s.put_key(true, &[194, 48 + nibble], LeafShape::OneNibble);
    s
}

#[test]
fn the_nibble_of_a_one_nibble_leaf_enters_its_key() {
    // nothing inherited, power one: the key is the nibble itself
    let s = single_nibble(1, Fe::zero(), Fe::one());
    let key = s.check_key(true).unwrap();
    assert_eq!(key.leaf_nibbles, 1);
    assert_eq!(key.key_rlc, Fe::one());

    let r = challenge();
    for nibble in 0..16u8 {
        let s = single_nibble(nibble, Fe::from_u64(77), r.pow(31));
        let key = s.check_key(true).unwrap();
        assert_eq!(key.key_rlc, Fe::from_u64(77).add(Fe::from_u8(nibble).mul(r.pow(31))));
    }

    // the key of the levels above alone is not the key of the leaf
    let mut s = single_nibble(5, Fe::from_u64(77), r.pow(31));
    s.table[19].key.rlc = Fe::from_u64(77);
    assert_eq!(s.check_key(true).unwrap_err(), LeafKeyConstraint::KeyRlc);
}

#[test]
fn a_one_nibble_leaf_under_a_placeholder_is_held_to_its_key() {
    let r = challenge();
    let (mut table, witness) = blank_rows(44);
    table[0].branch.sel_odd = true;
    table[0].branch.nibbles_count = 63;
    for i in 1..=16 {
        table[i].key.rlc = Fe::from_u64(9);
        table[i].key.mult = r.pow(31);
    }
    table[19].branch.is_s_placeholder = true;
    let mut s = Scenario { table, witness, keccak: KeccakTable::new(), leaf: 38 };
    let prev = s.table[14].key;
    s.table[38].key_prev = prev;
    s.put_key(true, &[194, 48 + 7], LeafShape::OneNibble);
    s.table[38].key_prev = prev;
    let ctx = LeafKeyChip::construct(LeafKeyChip::configure(true)).inherited(&s.table, 38);
    assert_eq!(ctx.level, Level::AfterPlaceholder);
    s.table[38].key.rlc = compute_key_rlc(&s.table[38], LeafShape::OneNibble, &ctx, r);
    let key = s.check_key(true).unwrap();
    assert_eq!(key.key_rlc, Fe::from_u64(9).add(Fe::from_u64(7).mul(r.pow(31))));
    s.table[38].key.rlc = Fe::from_u64(9);
    assert_eq!(s.check_key(true).unwrap_err(), LeafKeyConstraint::KeyRlc);
}

#[test]
fn a_last_level_leaf_under_a_placeholder_keeps_the_inherited_key() {
    let r = challenge();
    let (mut table, witness) = blank_rows(44);
    table[0].branch.sel_even = true;
    table[0].branch.nibbles_count = 64;
    for i in 1..=16 {
        table[i].key.rlc = Fe::from_u64(9);
        table[i].key.mult = r.pow(32);
    }
    table[19].branch.is_s_placeholder = true;
    let mut s = Scenario { table, witness, keccak: KeccakTable::new(), leaf: 38 };
    let prev = s.table[14].key;
    s.put_key(true, &[194, 32], LeafShape::LastLevel);
    s.table[38].key_prev = prev;
    s.table[38].key.rlc = Fe::from_u64(9);
    assert_eq!(s.check_key(true).unwrap().key_rlc, Fe::from_u64(9));
    s.table[38].key.rlc = Fe::from_u64(10);
    assert_eq!(s.check_key(true).unwrap_err(), LeafKeyConstraint::KeyRlc);
}

#[test]
fn a_short_value_row_needs_no_more_than_34_bytes() {
    let r = challenge();
    let mut s = short_and_long();
    let mut bytes = vec![0u8; 34];
    bytes[0] = 1;
    s.witness[20] = MptWitnessRow::new(bytes);
    let key = s.table[19];
    let mut pv = ProofValues {
        acc_s: key.acc_s.rlc,
        acc_mult_s: key.acc_s.mult,
        acc_c: Fe::zero(),
        acc_mult_c: Fe::zero(),
        rlc1: Fe::zero(),
        rlc2: Fe::zero(),
    };
    LeafValueConfig::configure(true).assign(&mut s.table, &s.witness, &mut pv, 20, r);
    assert!(!s.table[20].flag1);
    assert!(s.table[20].flag2);
    assert_eq!(pv.acc_mult_c, r.pow(34));
}

#[test]
fn the_key_row_tells_whether_the_value_is_long() {
    assert!(!is_long_value(226, 160, 59));
    assert!(is_long_value(248, 67, 160));
    assert!(!is_long_value(194, 32, 0));
    assert!(!is_long_value(194, 48, 0));
    assert!(is_long_value(227, 32, 161));
    assert!(!is_long_value(0, 0, 0));
    // one byte of room is a short value, two are a long one
    assert!(!is_long_value(248, 34, 160));
    assert!(is_long_value(248, 35, 160));
}

#[test]
fn a_cell_behind_the_key_that_is_not_zero_is_rejected() {
    let r = challenge();
    // a key of two bytes that starts with a nibble: three nibbles
    let mut s = under_branch(61, true, Fe::from_u64(5), r.pow(30));
    s.put_key(true, &[196, 130, 51, 7], LeafShape::Short);
    assert_eq!(s.check_key(true).unwrap().leaf_nibbles, 3);

    // the same row with 99 in the cell behind the key, and accumulators
    // over the row as it stands
    let mut s = under_branch(61, true, Fe::from_u64(5), r.pow(30));
    s.put_key(true, &[196, 130, 51, 7, 99], LeafShape::Short);
    assert_eq!(s.table[19].acc_s.rlc, compute_rlc(&[196, 130, 51, 7, 99], r));
    assert_eq!(s.check_key(true).unwrap_err(), LeafKeyConstraint::ZeroPadding);

    // the last cell of the row is behind every short key
    let mut s = under_branch(61, true, Fe::from_u64(5), r.pow(30));
    let mut head = vec![196u8, 130, 51, 7];
    head.resize(36, 0);
    head[35] = 1;
    s.put_key(true, &head, LeafShape::Short);
    assert_eq!(s.check_key(true).unwrap_err(), LeafKeyConstraint::ZeroPadding);

    // a long leaf: the key of 32 bytes ends in the first cell of the C
    // side, and the second is behind it
    let mut s = short_and_long();
    assert!(s.check_key(false).is_ok());
    let mut head = KEY_LONG.to_vec();
    head.push(1);
    s.put_key(false, &head, LeafShape::Long);
    assert_eq!(s.check_key(false).unwrap_err(), LeafKeyConstraint::ZeroPadding);
}

#[test]
fn the_marker_is_set_under_an_empty_root_alone() {
    let fresh = |root_s: [u8; 32], tag: u8| {
        let mut s = under_account(root_s, root_s);
        let mut head = vec![0u8; 34];
        head[1] = 160;
        head[2..34].copy_from_slice(&root_s);
        s.witness[5] = witness_row(&head, tag);
        s.put_key(true, &first_level_head(), LeafShape::Short);
        s.put_value(true, &[17], Fe::zero());
        s.table[9].sel1
    };
    assert!(fresh(empty_trie_hash_bytes(), 9));
    // the hash in a row of another kind sets nothing
    assert!(!fresh(empty_trie_hash_bytes(), 11));
    assert!(!fresh(empty_trie_hash_bytes(), 7));
    // nor does another root
    assert!(!fresh(keccak(&[0xc0]), 9));
}
