//! Recoder bit-exactness on concrete scalars: the streamed digits, weighted
//! by 2^(64*i + 16*j), recompose the scalar, and every digit is a signed
//! 16-bit value.

use cyclone_msm::{limb_carries, single_digit_carry, Scalar};
use rand::{Rng, SeedableRng};

fn add256(acc: &mut [u64; 4], limb: usize, v: u64) {
    let mut carry: bool;
    let (r, c) = acc[limb].overflowing_add(v);
    acc[limb] = r;
    carry = c;
    for k in (limb + 1)..4 {
        if !carry {
            break;
        }
        let (r, c) = acc[k].overflowing_add(1);
        acc[k] = r;
        carry = c;
    }
}

fn sub256(acc: &mut [u64; 4], limb: usize, v: u64) {
    let mut borrow: bool;
    let (r, b) = acc[limb].overflowing_sub(v);
    acc[limb] = r;
    borrow = b;
    for k in (limb + 1)..4 {
        if !borrow {
            break;
        }
        let (r, b) = acc[k].overflowing_sub(1);
        acc[k] = r;
        borrow = b;
    }
}

/// Extract the sixteen digits as the session streams them: limb 0 from the
/// raw scalar, limbs 1..=3 from the carry output.
fn streamed_digits(s: &Scalar) -> [[i16; 4]; 4] {
    let mut carried: Vec<Scalar> = vec![[0u64; 4]];
    limb_carries(std::slice::from_ref(s), &mut carried);
    let mut d = [[0i16; 4]; 4];
    for j in 0..4 {
        d[0][j] = single_digit_carry(s, 0, j);
    }
    for i in 1..4 {
        for j in 0..4 {
            d[i][j] = single_digit_carry(&carried[0], i, j);
        }
    }
    d
}

fn check_recompose(s: Scalar) {
    let d = streamed_digits(&s);
    let mut acc = [0u64; 4];
    for i in 0..4 {
        for j in 0..4 {
            let digit = d[i][j];
            assert!((-0x8000..0x8000).contains(&(digit as i32)));
            if digit >= 0 {
                add256(&mut acc, i, (digit as u64) << (16 * j));
            } else {
                sub256(&mut acc, i, ((-(digit as i32)) as u64) << (16 * j));
            }
        }
    }
    assert_eq!(acc, s, "digits must recompose the scalar");
}

#[test]
fn recode_zero() {
    check_recompose([0, 0, 0, 0]);
    let d = streamed_digits(&[0, 0, 0, 0]);
    assert_eq!(d, [[0i16; 4]; 4]);
}

#[test]
fn recode_one() {
    check_recompose([1, 0, 0, 0]);
    let d = streamed_digits(&[1, 0, 0, 0]);
    assert_eq!(d[0][0], 1);
}

#[test]
fn recode_half_boundary() {
    // 0x8000 is replaced by -0x8000 with a carry into the next half-word.
    let s: Scalar = [0x8000, 0, 0, 0];
    let d = streamed_digits(&s);
    assert_eq!(d[0][0], -0x8000);
    assert_eq!(d[0][1], 1);
    check_recompose(s);
}

#[test]
fn recode_carry_cascade() {
    // A limb of all-ones half-words: the lowest digit is -1, the carry
    // cascades through the saturated half-words and across the limb
    // boundary, where the next limb absorbs it.
    let s: Scalar = [u64::MAX, 0, 0, 0];
    let d = streamed_digits(&s);
    assert_eq!(d[0], [-1i16, 0, 0, 0]);
    assert_eq!(d[1][0], 1);
    check_recompose(s);
}

#[test]
fn recode_largest_supported() {
    // The largest scalar below 2^253: every half-word is full, the top one
    // stays under 2^13.
    let s: Scalar = [u64::MAX, u64::MAX, u64::MAX, 0x1fff_ffff_ffff_ffff];
    check_recompose(s);
}

#[test]
fn recode_random() {
    let mut rng = rand::rngs::StdRng::seed_from_u64(7);
    for _ in 0..200 {
        let mut s: Scalar = [0; 4];
        for l in s.iter_mut() {
            *l = rng.gen();
        }
        // keep the scalar below 2^253, where recoding is exact
        s[3] &= 0x1fff_ffff_ffff_ffff;
        check_recompose(s);
    }
}

#[test]
fn recode_matches_raw_extraction() {
    // Limb 0's digits computed from the raw scalar equal the stored ones.
    let mut rng = rand::rngs::StdRng::seed_from_u64(8);
    for _ in 0..50 {
        let mut s: Scalar = [0; 4];
        for l in s.iter_mut() {
            *l = rng.gen();
        }
        s[3] &= 0x1fff_ffff_ffff_ffff;
        let mut carried: Vec<Scalar> = vec![[0u64; 4]];
        limb_carries(std::slice::from_ref(&s), &mut carried);
        for j in 0..4 {
            let raw = single_digit_carry(&s, 0, j);
            let stored = (carried[0][0] >> (16 * j)) as u16 as i16;
            assert_eq!(raw, stored);
        }
    }
}
