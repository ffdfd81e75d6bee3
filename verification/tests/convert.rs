//! Converter behaviour against the external curve library: the preprocess
//! round trip, batch equivalence, identity handling, and the unified mixed
//! adder checked against the library's own group law.

use ark_ec::{AffineRepr, CurveGroup};
use ark_std::UniformRand;
use cyclone_msm::{
    batch_preprocess, into_weierstrass, preprocess, preprocess_points, Fq, G1Affine,
    G1PTEAffine, G1TEProjective,
};
use rand::SeedableRng;

fn fq_from_ark(x: ark_bls12_377::Fq) -> Fq {
    Fq { limbs: x.0 .0 }
}

fn fq_to_ark(x: &Fq) -> ark_bls12_377::Fq {
    ark_ff::Fp(ark_ff::BigInt(x.limbs), core::marker::PhantomData)
}

fn affine_from_ark(p: &ark_bls12_377::G1Affine) -> G1Affine {
    G1Affine {
        x: fq_from_ark(p.x),
        y: fq_from_ark(p.y),
        infinity: p.infinity,
    }
}

fn random_affine(rng: &mut rand::rngs::StdRng, n: usize) -> Vec<ark_bls12_377::G1Affine> {
    let pts: Vec<ark_bls12_377::G1Projective> =
        (0..n).map(|_| ark_bls12_377::G1Projective::rand(rng)).collect();
    ark_bls12_377::G1Projective::normalize_batch(&pts)
}

/// The extended projective view of a preprocessed point: `(x, y, 1, x*y)`.
fn te_projective_of(pp: &G1PTEAffine) -> G1TEProjective {
    let one = fq_from_ark(ark_bls12_377::Fq::from(1u64));
    let t = fq_from_ark(fq_to_ark(&pp.x) * fq_to_ark(&pp.y));
    G1TEProjective { x: pp.x, y: pp.y, z: one, t }
}

#[test]
fn preprocess_round_trip() {
    // For every non-infinity Weierstrass point, converting to the
    // preprocessed form and back returns the point.
    let mut rng = rand::rngs::StdRng::seed_from_u64(11);
    for p in random_affine(&mut rng, 8) {
        let pp = preprocess(&affine_from_ark(&p));
        let back = into_weierstrass(&te_projective_of(&pp));
        assert_eq!(fq_to_ark(&back.x), p.x);
        assert_eq!(fq_to_ark(&back.y), p.y);
        assert_eq!(fq_to_ark(&back.z), ark_bls12_377::Fq::from(1u64));
    }
}

#[test]
fn batch_preprocess_equivalence() {
    // Entry i of the batched conversion equals the single-point conversion,
    // the point at infinity included.
    let mut rng = rand::rngs::StdRng::seed_from_u64(12);
    let mut points: Vec<G1Affine> = random_affine(&mut rng, 7)
        .iter()
        .map(affine_from_ark)
        .collect();
    points.push(affine_from_ark(&ark_bls12_377::G1Affine::zero()));
    let mut batched: Vec<G1PTEAffine> = vec![
        G1PTEAffine {
            x: Fq { limbs: [0; 6] },
            y: Fq { limbs: [0; 6] },
            kt: Fq { limbs: [0; 6] },
        };
        points.len()
    ];
    batch_preprocess(&points, &mut batched);
    for (p, b) in points.iter().zip(batched.iter()) {
        let single = preprocess(p);
        assert_eq!(single, *b);
    }
    // and the chunked whole-slice form agrees too
    let all = preprocess_points(&points);
    assert_eq!(all, batched);
}

#[test]
fn preprocess_infinity_is_identity() {
    let pp = preprocess(&affine_from_ark(&ark_bls12_377::G1Affine::zero()));
    assert!(pp.is_zero());
    assert_eq!(fq_to_ark(&pp.x), ark_bls12_377::Fq::from(0u64));
    assert_eq!(fq_to_ark(&pp.y), ark_bls12_377::Fq::from(1u64));
    assert_eq!(fq_to_ark(&pp.kt), ark_bls12_377::Fq::from(0u64));
}

#[test]
fn preprocess_degenerate_denominator() {
    // A raw pair with y = 0 is not on the curve; its conversion denominator
    // vanishes and the all-zero triple comes back instead of a panic.
    let mut rng = rand::rngs::StdRng::seed_from_u64(13);
    let p = random_affine(&mut rng, 1)[0];
    let bad = G1Affine {
        x: fq_from_ark(p.x),
        y: fq_from_ark(ark_bls12_377::Fq::from(0u64)),
        infinity: false,
    };
    let pp = preprocess(&bad);
    assert_eq!(pp.x.limbs, [0u64; 6]);
    assert_eq!(pp.y.limbs, [0u64; 6]);
    assert_eq!(pp.kt.limbs, [0u64; 6]);
}

#[test]
fn into_weierstrass_identity() {
    let zero = G1TEProjective::zero();
    let w = into_weierstrass(&zero);
    // the Weierstrass identity is represented projectively as (1, 1, 0)
    assert_eq!(fq_to_ark(&w.x), ark_bls12_377::Fq::from(1u64));
    assert_eq!(fq_to_ark(&w.y), ark_bls12_377::Fq::from(1u64));
    assert_eq!(fq_to_ark(&w.z), ark_bls12_377::Fq::from(0u64));
}

#[test]
fn madd_identity_accumulator_is_neutral() {
    // Adding a point into an identity accumulator installs the point.
    let mut rng = rand::rngs::StdRng::seed_from_u64(14);
    let p = random_affine(&mut rng, 1)[0];
    let pp = preprocess(&affine_from_ark(&p));
    let mut acc = G1TEProjective::zero();
    acc.add_assign(&pp);
    let back = into_weierstrass(&acc);
    assert_eq!(fq_to_ark(&back.x), p.x);
    assert_eq!(fq_to_ark(&back.y), p.y);
}

#[test]
fn madd_matches_group_law() {
    // The seven-multiplication unified mixed adder computes the group law:
    // accumulating two points and converting back gives their external sum.
    let mut rng = rand::rngs::StdRng::seed_from_u64(15);
    let pts = random_affine(&mut rng, 2);
    let expected = (pts[0] + pts[1]).into_affine();
    let pp0 = preprocess(&affine_from_ark(&pts[0]));
    let pp1 = preprocess(&affine_from_ark(&pts[1]));
    let mut acc = te_projective_of(&pp0);
    acc.add_assign(&pp1);
    let back = into_weierstrass(&acc);
    assert_eq!(fq_to_ark(&back.x), expected.x);
    assert_eq!(fq_to_ark(&back.y), expected.y);
}

#[test]
fn madd_identity_point_is_neutral() {
    // Adding the identity point into a non-identity accumulator leaves the
    // accumulated value unchanged (projectively).
    let mut rng = rand::rngs::StdRng::seed_from_u64(17);
    let p = random_affine(&mut rng, 1)[0];
    let mut acc = te_projective_of(&preprocess(&affine_from_ark(&p)));
    let identity = preprocess(&affine_from_ark(&ark_bls12_377::G1Affine::zero()));
    acc.add_assign(&identity);
    let back = into_weierstrass(&acc);
    assert_eq!(fq_to_ark(&back.x), p.x);
    assert_eq!(fq_to_ark(&back.y), p.y);
}

#[test]
fn msub_subtracts() {
    let mut rng = rand::rngs::StdRng::seed_from_u64(16);
    let pts = random_affine(&mut rng, 2);
    let expected = (pts[0] + (-pts[1])).into_affine();
    let pp0 = preprocess(&affine_from_ark(&pts[0]));
    let pp1 = preprocess(&affine_from_ark(&pts[1]));
    let mut acc = te_projective_of(&pp0);
    acc.sub_assign(&pp1);
    let back = into_weierstrass(&acc);
    assert_eq!(fq_to_ark(&back.x), expected.x);
    assert_eq!(fq_to_ark(&back.y), expected.y);
}

#[test]
fn into_weierstrass_noncanonical_coordinate() {
    // A denominator out of canonical range - the limbs of the modulus
    // itself, a second representation of zero - never reaches the external
    // inversion; the conversion answers the identity instead.
    let modulus_limbs: [u64; 6] = [
        0x8508c00000000001,
        0x170b5d4430000000,
        0x1ef3622fba094800,
        0x1a22d9f300f5138f,
        0xc63b05c06ca1493b,
        0x01ae3a4617c510ea,
    ];
    let one = fq_from_ark(ark_bls12_377::Fq::from(1u64));
    let p = G1TEProjective {
        x: one,
        y: one,
        z: Fq { limbs: modulus_limbs },
        t: one,
    };
    let w = into_weierstrass(&p);
    assert_eq!(fq_to_ark(&w.z), ark_bls12_377::Fq::from(0u64));
}
