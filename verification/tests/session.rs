//! Protocol-level tests against the recording mock transport: the exact
//! write sequences (channels, offsets, packet contents), and end-to-end
//! checks where the test plays the device's role, computing each column sum
//! from the recorded digit stream with the external curve library and
//! folding as the driver does; the fold must equal the reference MSM.

use ark_ec::{AffineRepr, CurveGroup, Group};
use ark_ff::PrimeField;
use ark_std::UniformRand;
use cyclone_msm::{
    into_weierstrass, App, Command, Event, Fq, G1PTEAffine, G1TEProjective, Null, Packet, Scalar,
};
use rand::SeedableRng;

const SET_X_BASE: usize = 0x400_0000;
const SET_Y_BASE: usize = 0x800_0000;
const SET_KT_BASE: usize = 0xc00_0000;
const MSM_BASE: usize = 0x1000_0000;
const SET_ZERO_BASE: usize = 0x1400_0000;

fn ark_fq(limbs: [u64; 6]) -> ark_bls12_377::Fq {
    ark_ff::Fp(ark_ff::BigInt(limbs), core::marker::PhantomData)
}

fn pp_from_ark(p: &ark_bls12_377::G1Affine) -> G1PTEAffine {
    cyclone_msm::preprocess(&cyclone_msm::G1Affine {
        x: Fq { limbs: p.x.0 .0 },
        y: Fq { limbs: p.y.0 .0 },
        infinity: p.infinity,
    })
}

fn random_points(rng: &mut rand::rngs::StdRng, n: usize) -> Vec<ark_bls12_377::G1Affine> {
    let pts: Vec<ark_bls12_377::G1Projective> =
        (0..n).map(|_| ark_bls12_377::G1Projective::rand(rng)).collect();
    ark_bls12_377::G1Projective::normalize_batch(&pts)
}

/// Points of the form beta^i * g.
fn harness_points(rng: &mut rand::rngs::StdRng, n: usize) -> (ark_bls12_377::Fr, Vec<ark_bls12_377::G1Affine>) {
    let beta = ark_bls12_377::Fr::rand(rng);
    let mut acc = ark_bls12_377::G1Projective::from(ark_bls12_377::G1Affine::generator());
    let mut pts = Vec::with_capacity(n);
    for _ in 0..n {
        pts.push(acc);
        acc *= beta;
    }
    (beta, ark_bls12_377::G1Projective::normalize_batch(&pts))
}

/// The uploaded twisted-Edwards points, recovered from the upload packets.
/// Each pass is one packet per point at consecutive offsets, with a flush
/// mark after every 1024th packet and a closing drain.
fn parse_uploads(events: &[Event], n: usize) -> Vec<ark_bls12_377::G1TEProjective> {
    let mut xs = Vec::new();
    let mut ys = Vec::new();
    let mut it = events.iter();
    for (pass, base) in [SET_X_BASE, SET_Y_BASE, SET_KT_BASE].iter().enumerate() {
        for pos in 0..n {
            match it.next().unwrap() {
                Event::Packet { index, words } => {
                    assert_eq!(*index, base + pos, "upload offsets are consecutive from the base");
                    assert_eq!(words[6], 0);
                    assert_eq!(words[7], 0);
                    let c = ark_fq([words[0], words[1], words[2], words[3], words[4], words[5]]);
                    if pass == 0 {
                        xs.push(c);
                    } else if pass == 1 {
                        ys.push(c);
                    }
                }
                _ => panic!("expected an upload packet"),
            }
            if (pos + 1) % 1024 == 0 {
                assert!(matches!(it.next().unwrap(), Event::Flush), "a flush every 1024 packets");
            }
        }
        assert!(matches!(it.next().unwrap(), Event::Flush), "a drain closes the pass");
    }
    assert!(it.next().is_none(), "nothing follows the third pass");
    xs.iter()
        .zip(ys.iter())
        .map(|(x, y)| {
            ark_bls12_377::G1TEAffine::new_unchecked(*x, *y).into_group()
        })
        .collect()
}

struct ParsedColumn {
    digits: Vec<i16>,
}

/// Split the log of column dispatches: each column is one flushed start
/// packet, its digit packets with the backpressure flush marks, a drain,
/// then 48 readback queries.
fn parse_columns(events: &[Event], n: usize) -> Vec<ParsedColumn> {
    let packets_per_column = n.div_ceil(8);
    let mut columns = Vec::new();
    let mut it = events.iter().peekable();
    while it.peek().is_some() {
        match it.next().unwrap() {
            Event::Packet { index, words } => {
                assert_eq!(*index, MSM_BASE, "a column starts at the channel base");
                assert_eq!(words[0], 1, "a column starts with the start-column opcode");
            }
            _ => panic!("expected a start-column packet"),
        }
        assert!(matches!(it.next().unwrap(), Event::Flush), "the start packet is flushed");
        let mut digits = Vec::new();
        for k in 0..packets_per_column {
            match it.next().unwrap() {
                Event::Packet { index, words } => {
                    assert_eq!(*index, MSM_BASE + 1 + k, "digit offsets are consecutive");
                    for w in words {
                        assert_eq!(w & 0x3fff, 3, "every word carries the set-digit opcode");
                        digits.push((w >> 14) as u16 as i16);
                    }
                }
                _ => panic!("expected a digit packet"),
            }
            if (MSM_BASE + 1 + k + 1) % 512 == 0 {
                assert!(matches!(it.next().unwrap(), Event::Flush), "a flush every 512 packets");
            }
        }
        digits.truncate(n.max(8));
        assert!(matches!(it.next().unwrap(), Event::Flush), "a drain precedes the readback");
        for q in 0..48 {
            match it.next().unwrap() {
                Event::Register { index, value } => {
                    assert_eq!(*index, 0x10);
                    assert_eq!(*value, (q % 12) as u32);
                }
                _ => panic!("expected a readback query"),
            }
        }
        columns.push(ParsedColumn { digits });
    }
    columns
}

fn column_sum(
    points: &[ark_bls12_377::G1TEProjective],
    digits: &[i16],
) -> ark_bls12_377::G1TEProjective {
    let mut acc = ark_bls12_377::G1TEProjective::default();
    for (p, d) in points.iter().zip(digits.iter()) {
        acc += *p * ark_bls12_377::Fr::from(*d as i64);
    }
    acc
}

fn shl(acc: &mut ark_bls12_377::G1TEProjective, c: usize) {
    for _ in 0..c {
        acc.double_in_place();
    }
}

/// Play the device for a full MSM log: sixteen columns in dispatch order,
/// folded exactly as the driver folds them.
fn simulate_msm(
    points: &[ark_bls12_377::G1TEProjective],
    columns: &[ParsedColumn],
) -> ark_bls12_377::G1TEProjective {
    assert_eq!(columns.len(), 16, "four limbs of four columns each");
    let mut total0 = ark_bls12_377::G1TEProjective::default();
    for (j, col) in columns[0..4].iter().enumerate() {
        total0 += column_sum(points, &col.digits);
        if j != 3 {
            shl(&mut total0, 16);
        }
    }
    let mut total = ark_bls12_377::G1TEProjective::default();
    for col in &columns[4..16] {
        total += column_sum(points, &col.digits);
        shl(&mut total, 16);
    }
    shl(&mut total, 48);
    total + total0
}

/// Convert a simulated accumulator through the library's converter and
/// compare with a reference point.
fn assert_is(acc: ark_bls12_377::G1TEProjective, expected: ark_bls12_377::G1Projective) {
    let ours = into_weierstrass(&G1TEProjective {
        x: Fq { limbs: acc.x.0 .0 },
        y: Fq { limbs: acc.y.0 .0 },
        z: Fq { limbs: acc.z.0 .0 },
        t: Fq { limbs: acc.t.0 .0 },
    });
    let expected = expected.into_affine();
    if expected.is_zero() {
        assert_eq!(ark_fq(ours.z.limbs), ark_bls12_377::Fq::from(0u64));
    } else {
        assert_eq!(ark_fq(ours.x.limbs), expected.x);
        assert_eq!(ark_fq(ours.y.limbs), expected.y);
        assert_eq!(ark_fq(ours.z.limbs), ark_bls12_377::Fq::from(1u64));
    }
}

#[test]
fn session_setup_writes() {
    let app = App::new(Null::new(), 3);
    let events = &app.fpga.events;
    assert_eq!(events.len(), 9);
    assert!(matches!(events[8], Event::Flush), "the identity reset ends with a drain");
    assert!(matches!(events[0], Event::Register { index: 0x20, value: 8 }));
    assert!(matches!(events[1], Event::Register { index: 0x22, value: 0 }));
    assert!(matches!(events[2], Event::Register { index: 0x21, value: 0x7fff }));
    assert!(matches!(events[3], Event::Register { index: 0x11, value: 64 }));
    for k in 0..4 {
        match &events[4 + k] {
            Event::Packet { index, words } => {
                assert_eq!(*index, SET_ZERO_BASE + k);
                let c = ark_fq([words[0], words[1], words[2], words[3], words[4], words[5]]);
                // the identity's x, y, z, t coordinates in order
                let expect = if k == 0 || k == 3 { 0u64 } else { 1u64 };
                assert_eq!(c, ark_bls12_377::Fq::from(expect));
            }
            _ => panic!("expected an identity packet"),
        }
    }
}

#[test]
fn upload_ordering() {
    // For each coordinate channel the driver writes exactly n packets at
    // offsets base, base + 1, ..., base + n - 1.
    let mut rng = rand::rngs::StdRng::seed_from_u64(21);
    let n = 8usize;
    let points = random_points(&mut rng, n);
    let pps: Vec<G1PTEAffine> = points.iter().map(pp_from_ark).collect();
    let mut app = App::new(Null::new(), 3);
    app.fpga.events.clear();
    app.set_preprocessed_points(&pps);
    let uploaded = parse_uploads(&app.fpga.events, n);
    for (u, pp) in uploaded.iter().zip(pps.iter()) {
        let aff = u.into_affine();
        assert_eq!(aff.x, ark_fq(pp.x.limbs));
        assert_eq!(aff.y, ark_fq(pp.y.limbs));
    }
}

fn run_column_case(digits: &[i16], points: &[ark_bls12_377::G1Affine]) -> ark_bls12_377::G1TEProjective {
    // Stream one digit column by hand, as a column-only check does.
    let n = points.len();
    let size = n.trailing_zeros() as u8;
    assert_eq!(1usize << size, n);
    let pps: Vec<G1PTEAffine> = points.iter().map(pp_from_ark).collect();
    let mut app = App::new(Null::new(), size);
    app.set_preprocessed_points(&pps);
    app.fpga.events.clear();
    let mut stream = app.start_column();
    let mut chunks = digits.chunks(8);
    for chunk in &mut chunks {
        let mut packet = Packet::new();
        for (k, d) in chunk.iter().enumerate() {
            packet.words[k] = Command::set_digit(*d);
        }
        for k in chunk.len()..8 {
            packet.words[k] = Command::set_digit(0);
        }
        stream.write(&mut app.fpga, &packet);
    }
    let _ = app.get_point();
    let te_points: Vec<ark_bls12_377::G1TEProjective> =
        pps.iter()
            .map(|p| {
                ark_bls12_377::G1TEAffine::new_unchecked(ark_fq(p.x.limbs), ark_fq(p.y.limbs))
                    .into_group()
            })
            .collect();
    let cols = parse_columns(&app.fpga.events, n);
    assert_eq!(cols.len(), 1);
    column_sum(&te_points, &cols[0].digits)
}

#[test]
fn single_point_positive() {
    // n = 2, digits 1 and 0: the column sum is the first point.
    let mut rng = rand::rngs::StdRng::seed_from_u64(22);
    let points = random_points(&mut rng, 2);
    let acc = run_column_case(&[1, 0], &points);
    assert_is(acc, points[0].into_group());
}

#[test]
fn single_point_negative() {
    // n = 1, digit -1: the column sum is the negated point.
    let mut rng = rand::rngs::StdRng::seed_from_u64(23);
    let points = random_points(&mut rng, 1);
    let acc = run_column_case(&[-1], &points);
    assert_is(acc, -points[0].into_group());
}

#[test]
fn add_two_points() {
    // n = 2, digits 1 and 1: the sum of the two points.
    let mut rng = rand::rngs::StdRng::seed_from_u64(24);
    let points = random_points(&mut rng, 2);
    let acc = run_column_case(&[1, 1], &points);
    assert_is(acc, points[0].into_group() + points[1]);
}

#[test]
fn subtract_two_points() {
    // n = 2, digits 1 and -1: the difference of the two points.
    let mut rng = rand::rngs::StdRng::seed_from_u64(25);
    let points = random_points(&mut rng, 2);
    let acc = run_column_case(&[1, -1], &points);
    assert_is(acc, points[0].into_group() - points[1]);
}

#[test]
fn column_of_harness_points() {
    // Random 16-bit digits over points beta^i * g: the column sum is
    // (sum of d_i * beta^i) * g.
    let mut rng = rand::rngs::StdRng::seed_from_u64(26);
    let n = 64usize;
    let (beta, points) = harness_points(&mut rng, n);
    let digits: Vec<i16> = (0..n).map(|_| rand::Rng::gen::<i16>(&mut rng)).collect();
    let acc = run_column_case(&digits, &points);
    let mut coeff = ark_bls12_377::Fr::from(0u64);
    let mut beta_i = ark_bls12_377::Fr::from(1u64);
    for d in &digits {
        coeff += ark_bls12_377::Fr::from(*d as i64) * beta_i;
        beta_i *= beta;
    }
    let expected = ark_bls12_377::G1Affine::generator() * coeff;
    assert_is(acc, expected);
}

#[test]
fn full_msm_log_and_fold() {
    // A full MSM: the dispatched digit stream, simulated by the test as the
    // device would consume it, folds to the reference sum of s_i * P_i.
    let mut rng = rand::rngs::StdRng::seed_from_u64(27);
    let size = 4u8;
    let n = 1usize << size;
    let (_, points) = harness_points(&mut rng, n);
    let frs: Vec<ark_bls12_377::Fr> =
        (0..n).map(|_| ark_bls12_377::Fr::rand(&mut rng)).collect();
    let scalars: Vec<Scalar> = frs.iter().map(|f| f.into_bigint().0).collect();
    let pps: Vec<G1PTEAffine> = points.iter().map(pp_from_ark).collect();
    let mut app = App::new(Null::new(), size);
    app.set_preprocessed_points(&pps);
    app.fpga.events.clear();
    let _ = app.msm(&scalars);
    let te_points: Vec<ark_bls12_377::G1TEProjective> =
        pps.iter()
            .map(|p| {
                ark_bls12_377::G1TEAffine::new_unchecked(ark_fq(p.x.limbs), ark_fq(p.y.limbs))
                    .into_group()
            })
            .collect();
    let cols = parse_columns(&app.fpga.events, n);
    let total = simulate_msm(&te_points, &cols);
    let mut expected = ark_bls12_377::G1Projective::default();
    for (p, f) in points.iter().zip(frs.iter()) {
        expected += *p * *f;
    }
    assert_is(total, expected);
}

#[test]
fn msm_linearity() {
    // Linearity: the fold of msm(P, s1) plus the fold of msm(P, s2) equals
    // the fold of msm(P, s1 + s2 mod r).
    let mut rng = rand::rngs::StdRng::seed_from_u64(29);
    let size = 2u8;
    let n = 1usize << size;
    let points = random_points(&mut rng, n);
    let pps: Vec<G1PTEAffine> = points.iter().map(pp_from_ark).collect();
    let te_points: Vec<ark_bls12_377::G1TEProjective> =
        pps.iter()
            .map(|p| {
                ark_bls12_377::G1TEAffine::new_unchecked(ark_fq(p.x.limbs), ark_fq(p.y.limbs))
                    .into_group()
            })
            .collect();
    let s1: Vec<ark_bls12_377::Fr> =
        (0..n).map(|_| ark_bls12_377::Fr::rand(&mut rng)).collect();
    let s2: Vec<ark_bls12_377::Fr> =
        (0..n).map(|_| ark_bls12_377::Fr::rand(&mut rng)).collect();
    let s3: Vec<ark_bls12_377::Fr> = s1.iter().zip(s2.iter()).map(|(a, b)| *a + *b).collect();
    let mut run = |frs: &[ark_bls12_377::Fr]| -> ark_bls12_377::G1TEProjective {
        let scalars: Vec<Scalar> = frs.iter().map(|f| f.into_bigint().0).collect();
        let mut app = App::new(Null::new(), size);
        app.set_preprocessed_points(&pps);
        app.fpga.events.clear();
        let _ = app.msm(&scalars);
        simulate_msm(&te_points, &parse_columns(&app.fpga.events, n))
    };
    let r1 = run(&s1);
    let r2 = run(&s2);
    let r3 = run(&s3);
    assert_eq!(r1 + r2, r3);
}

#[test]
fn msm_of_zero_scalars() {
    // The identity scalar vector: every digit streamed is zero and the fold
    // is the identity.
    let mut rng = rand::rngs::StdRng::seed_from_u64(28);
    let size = 2u8;
    let n = 1usize << size;
    let points = random_points(&mut rng, n);
    let pps: Vec<G1PTEAffine> = points.iter().map(pp_from_ark).collect();
    let mut app = App::new(Null::new(), size);
    app.set_preprocessed_points(&pps);
    app.fpga.events.clear();
    let scalars = cyclone_msm::zero_scalars(size);
    let _ = app.msm(&scalars);
    let te_points: Vec<ark_bls12_377::G1TEProjective> =
        pps.iter()
            .map(|p| {
                ark_bls12_377::G1TEAffine::new_unchecked(ark_fq(p.x.limbs), ark_fq(p.y.limbs))
                    .into_group()
            })
            .collect();
    let cols = parse_columns(&app.fpga.events, n);
    for c in &cols {
        for d in &c.digits {
            assert_eq!(*d, 0);
        }
    }
    let total = simulate_msm(&te_points, &cols);
    assert_is(total, ark_bls12_377::G1Projective::default());
}

#[test]
fn upload_flush_cadence() {
    // 2048 points per pass: the upload policy leaves a flush mark after the
    // 1024th and the 2048th packet, and a drain closes each pass.
    let n = 2048usize;
    let pps = vec![cyclone_msm::PreprocessedAffine::zero(); n];
    let mut app = App::new(Null::new(), 11);
    app.fpga.events.clear();
    app.set_preprocessed_points(&pps);
    let events = &app.fpga.events;
    // the X pass: 1024 packets, a mark, 1024 packets, a mark, the drain
    assert!(matches!(events[1023], Event::Packet { .. }));
    assert!(matches!(events[1024], Event::Flush));
    assert!(matches!(events[2049], Event::Flush));
    assert!(matches!(events[2050], Event::Flush));
    let _ = parse_uploads(events, n);
}

#[test]
fn digit_flush_cadence() {
    // Streaming 1024 digit packets by hand: the digit policy leaves a flush
    // mark wherever the cursor reaches a multiple of 512.
    let mut app = App::new(Null::new(), 0);
    app.fpga.events.clear();
    let mut stream = app.start_column();
    let packet = Packet::new();
    for _ in 0..1024 {
        stream.write(&mut app.fpga, &packet);
    }
    let mut it = app.fpga.events.iter();
    assert!(matches!(it.next().unwrap(), Event::Packet { index: MSM_BASE, .. }));
    assert!(matches!(it.next().unwrap(), Event::Flush));
    for k in 0..1024usize {
        match it.next().unwrap() {
            Event::Packet { index, .. } => assert_eq!(*index, MSM_BASE + 1 + k),
            _ => panic!("expected a digit packet"),
        }
        if (MSM_BASE + 1 + k + 1) % 512 == 0 {
            assert!(
                matches!(it.next().unwrap(), Event::Flush),
                "a flush where the cursor hits a multiple of 512"
            );
        }
    }
    assert!(it.next().is_none());
}

#[test]
fn readback_is_the_answered_values() {
    // The returned point is exactly the recorded read answers assembled:
    // one readiness poll, then twelve halves each of X, Y, Z, T. The
    // always-ready mock answers 1 to the poll and 0 to every coordinate
    // half, so the point read back is all-zero limbs.
    let mut app = App::new(Null::new(), 0);
    app.fpga.answered.clear();
    let p = app.get_point();
    let reads = &app.fpga.answered;
    assert_eq!(reads.len(), 49);
    assert_eq!(reads[0], (0x30, 1), "one poll of the readiness flag");
    for (q, read) in reads[1..].iter().enumerate() {
        let reg = [0x31u32, 0x32, 0x33, 0x34][q / 12];
        assert_eq!(*read, (reg, 0));
    }
    assert_eq!(p.x.limbs, [0u64; 6]);
    assert_eq!(p.y.limbs, [0u64; 6]);
    assert_eq!(p.z.limbs, [0u64; 6]);
    assert_eq!(p.t.limbs, [0u64; 6]);
}

#[test]
fn statistic_is_the_answered_value() {
    let mut app = App::new(Null::new(), 0);
    app.fpga.answered.clear();
    let v = app.statistic(cyclone_msm::Statistic::DdrPushCount);
    assert_eq!(app.fpga.answered.len(), 1);
    assert_eq!(app.fpga.answered[0], (0x20, v), "the result is the read's answer");
    assert_eq!(v, 0, "the mock answers zero");
}
