//! Exact values: the command-word encoding, the embedded isomorphism
//! constants, and the conflict-free instance generators.

use ark_ec::twisted_edwards::TECurveConfig;
use cyclone_msm::{
    noconflict_column16, noconflict_digits, noconflict_scalars, single_digit_carry, zero_scalars,
    Command,
};

fn ark_fq6(limbs: [u64; 6]) -> ark_bls12_377::Fq {
    ark_ff::Fp(ark_ff::BigInt(limbs), core::marker::PhantomData)
}

#[test]
fn set_digit_encoding() {
    // opcode 3 in the low bits, the digit's 16-bit pattern shifted by 14
    assert_eq!(Command::set_digit(0), 3);
    assert_eq!(Command::set_digit(1), 0x4003);
    assert_eq!(Command::set_digit(-1), (0xffffu64 << 14) | 3);
    assert_eq!(Command::set_digit(i16::MIN), (0x8000u64 << 14) | 3);
    assert_eq!(Command::set_digit(i16::MAX), (0x7fffu64 << 14) | 3);
}

#[test]
fn isomorphism_constants() {
    // the two embedded isomorphism constants are inverse to each other, and
    // the embedded curve coefficient is the external library's own
    let s = ark_fq6(cyclone_msm::fq::fq_s().limbs);
    let s_inv = ark_fq6(cyclone_msm::fq::fq_s_inv().limbs);
    assert_eq!(s * s_inv, ark_bls12_377::Fq::from(1u64));
    let d = ark_fq6(cyclone_msm::fq::fq_coeff_d().limbs);
    assert_eq!(d, <ark_bls12_377::g1::Config as TECurveConfig>::COEFF_D);
    let one = ark_fq6(cyclone_msm::fq::fq_one().limbs);
    assert_eq!(one, ark_bls12_377::Fq::from(1u64));
}

#[test]
fn conflict_free_generators() {
    let digits = noconflict_digits(11);
    assert_eq!(digits.len(), 2048);
    assert_eq!(digits[0], 0);
    assert_eq!(digits[1023], 1023);
    assert_eq!(digits[1024], 0);
    assert_eq!(noconflict_column16(5), noconflict_digits(5));

    let scalars = noconflict_scalars(11);
    assert_eq!(scalars.len(), 2048);
    for (k, s) in scalars.iter().enumerate() {
        let v = (k % 1024) as u64;
        let limb = (v << 48) | (v << 32) | (v << 16) | v;
        assert_eq!(*s, [limb, limb, limb, limb]);
        // every half-word is below 2^15, so every column digit is the raw
        // half-word itself
        for i in 0..4 {
            for j in 0..4 {
                assert_eq!(single_digit_carry(s, i, j), v as i16);
            }
        }
    }

    let zeros = zero_scalars(3);
    assert_eq!(zeros.len(), 8);
    assert!(zeros.iter().all(|s| *s == [0u64; 4]));
}
