use halo2_proofs::pasta::group::ff::PrimeField;
use halo2_proofs::pasta::Fp;
use mpt_leaf::field::Fe;
use mpt_leaf::rlc::{compute_acc_and_mult, compute_rlc};

fn to_fp(e: Fe) -> Fp {
    let (l0, l1, l2, l3) = e.to_limbs();
    Fp::from_raw([l0, l1, l2, l3])
}

fn to_fe(x: Fp) -> Fe {
    let b = x.to_repr();
    let limb = |i: usize| {
        let mut w = [0u8; 8];
        w.copy_from_slice(&b[8 * i..8 * i + 8]);
        u64::from_le_bytes(w)
    };
    Fe::from_limbs(limb(0), limb(1), limb(2), limb(3)).unwrap()
}

fn big() -> Fe {
    Fe::from_limbs(0x0123_4567_89ab_cdef, 0xfedc_ba98_7654_3210, 0x0f1e_2d3c_4b5a_6978, 0x3fff_ffff_0000_0001)
        .unwrap()
}

#[test]
fn small_values_add_sub_mul() {
    let a = Fe::from_u64(7);
    let b = Fe::from_u64(5);
    assert_eq!(a.add(b), Fe::from_u64(12));
    assert_eq!(a.sub(b), Fe::from_u64(2));
    assert_eq!(a.mul(b), Fe::from_u64(35));
    assert_eq!(Fe::from_u8(200).add(Fe::from_u8(100)), Fe::from_u64(300));
    assert_eq!(Fe::from_bool(true), Fe::one());
    assert_eq!(Fe::from_bool(false), Fe::zero());
}

#[test]
fn subtraction_wraps_at_the_field_order() {
    // 0 - 1 is the order less one.
    let m1 = Fe::zero().sub(Fe::one());
    assert_eq!(
        m1.to_limbs(),
        (0x992d30ed00000000, 0x224698fc094cf91b, 0x0000000000000000, 0x4000000000000000)
    );
    assert_eq!(m1.add(Fe::one()), Fe::zero());
    assert_eq!(m1.mul(m1), Fe::one());
}

#[test]
fn limbs_at_or_above_the_order_are_refused() {
    assert!(Fe::from_limbs(0x992d30ed00000001, 0x224698fc094cf91b, 0, 0x4000000000000000).is_none());
    assert!(Fe::from_limbs(0x992d30ed00000000, 0x224698fc094cf91b, 0, 0x4000000000000000).is_some());
    assert!(Fe::from_limbs(0, 0, 1, 0x4000000000000000).is_none());
    assert!(Fe::from_limbs(0, 0, 0, 0x4000000000000001).is_none());
    assert!(Fe::from_limbs(u64::MAX, u64::MAX, u64::MAX, 0x3fffffffffffffff).is_some());
}

#[test]
fn arithmetic_agrees_with_the_curve_library() {
    let a = big();
    let b = Fe::from_limbs(17, 19, 23, 29).unwrap();
    assert_eq!(a.add(b), to_fe(to_fp(a) + to_fp(b)));
    assert_eq!(a.sub(b), to_fe(to_fp(a) - to_fp(b)));
    assert_eq!(b.sub(a), to_fe(to_fp(b) - to_fp(a)));
    assert_eq!(a.mul(b), to_fe(to_fp(a) * to_fp(b)));
    assert_ne!(a.mul(b), a);
    assert_ne!(a.add(b), a);
    assert_ne!(a.sub(b), a);
}

#[test]
fn powers() {
    let r = Fe::from_u64(3);
    assert_eq!(r.pow(0), Fe::one());
    assert_eq!(r.pow(1), r);
    assert_eq!(r.pow(5), Fe::from_u64(243));
    let a = big();
    assert_eq!(a.pow(3), a.mul(a).mul(a));
}

#[test]
fn equality_and_zero() {
    assert!(Fe::zero().is_zero());
    assert!(!Fe::one().is_zero());
    assert!(big().eq_fe(big()));
    assert!(!big().eq_fe(Fe::one()));
}

#[test]
fn rlc_of_small_bytes() {
    // 1 + 2*2 + 3*4 = 17
    assert_eq!(compute_rlc(&[1, 2, 3], Fe::from_u64(2)), Fe::from_u64(17));
    assert_eq!(compute_rlc(&[], Fe::from_u64(2)), Fe::zero());
    assert_eq!(compute_rlc(&[9], big()), Fe::from_u64(9));
    // 255 + 255*256 = 65535
    assert_eq!(compute_rlc(&[255, 255], Fe::from_u64(256)), Fe::from_u64(65535));
}

#[test]
fn rlc_of_a_concatenation() {
    let r = big();
    let a = [5u8, 6, 7];
    let b = [8u8, 9];
    let whole = [5u8, 6, 7, 8, 9];
    let left = compute_rlc(&a, r);
    let right = compute_rlc(&b, r);
    assert_eq!(compute_rlc(&whole, r), left.add(r.pow(3).mul(right)));
}

#[test]
fn rlc_ignores_zero_padding() {
    let r = big();
    assert_eq!(compute_rlc(&[5, 6, 7, 0, 0, 0], r), compute_rlc(&[5, 6, 7], r));
}

#[test]
fn accumulator_goes_on_where_it_stopped() {
    let r = Fe::from_u64(10);
    let mut acc = Fe::from_u64(4);
    let mut mult = Fe::from_u64(100);
    // bytes 2 and 3 of the row: 7 and 8
    compute_acc_and_mult(&[1, 1, 7, 8, 1], &mut acc, &mut mult, 2, 2, r);
    // 4 + 7*100 + 8*1000
    assert_eq!(acc, Fe::from_u64(8704));
    assert_eq!(mult, Fe::from_u64(10000));
    let mut acc2 = Fe::zero();
    let mut mult2 = Fe::one();
    compute_acc_and_mult(&[1, 2, 3], &mut acc2, &mut mult2, 0, 0, r);
    assert_eq!(acc2, Fe::zero());
    assert_eq!(mult2, Fe::one());
}
