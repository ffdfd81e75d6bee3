//! Curve-form converter: Weierstrass-affine points into the accelerator's
//! twisted-Edwards "extended plus precomputed" form, and back.
//!
//! The forward direction maps a non-infinity Weierstrass point `(x, y)`
//! through the isomorphism constants `s` and `sqrt(-a)` into twisted-Edwards
//! affine coordinates with the product `kt = 2*d*x*y` precomputed, which is
//! what the accelerator's unified adder consumes. The batched form shares one
//! modular inversion across the whole slice. The inverse direction folds an
//! extended twisted-Edwards projective accumulator back into Weierstrass
//! projective coordinates.

use crate::fq::{
    fq_add, fq_add_s, fq_batch_inversion, fq_coeff_d_limbs, fq_coeff_d, fq_double, fq_double_s,
    fq_eq, fq_inv_s, fq_inverse, fq_is_reduced, fq_is_zero, fq_mul, fq_mul_s, fq_neg, fq_neg_s,
    fq_one, fq_one_s, fq_reduced, fq_s, fq_s_inv, fq_s_inv_limbs, fq_s_limbs, fq_sqrt_min_a,
    fq_sqrt_min_a_limbs, fq_sub, fq_sub_s, fq_zero, fq_zero_s, Fq,
};
use ark_bls12_377::G1TEProjective as ArkTe;
use ark_ff::{BigInt, Fp};
use core::marker::PhantomData;
use vstd::prelude::*;

verus! {

/// One coordinate view: the limbs of a field element.
pub type FqV = Seq<u64>;

/// Affine point on the twisted-Edwards form of the curve, with the coordinate
/// `kt = 2*d*x*y` precomputed (the adder's formulas are for `a = -1`).
/// The identity is `(0, 1, 0)`.
#[derive(Clone, Copy, Debug, PartialEq, Eq)]
pub struct PreprocessedAffine {
    /// X coordinate of the point represented as a field element.
    pub x: Fq,
    /// Y coordinate of the point represented as a field element.
    pub y: Fq,
    /// Precomputed product `k*x*y`, `k = 2*d`.
    pub kt: Fq,
}

/// Preprocessed form of a BLS12-377 G1 point.
pub type G1PTEAffine = PreprocessedAffine;

impl View for PreprocessedAffine {
    type V = (FqV, FqV, FqV);

    open spec fn view(&self) -> (FqV, FqV, FqV) {
        (self.x@, self.y@, self.kt@)
    }
}

/// Affine point on the Weierstrass form of the curve, with an explicit
/// infinity flag.
#[derive(Clone, Copy, Debug, PartialEq, Eq)]
pub struct G1Affine {
    /// X coordinate; meaningless when `infinity` holds.
    pub x: Fq,
    /// Y coordinate; meaningless when `infinity` holds.
    pub y: Fq,
    /// Whether this is the point at infinity.
    pub infinity: bool,
}

impl View for G1Affine {
    type V = (FqV, FqV, bool);

    open spec fn view(&self) -> (FqV, FqV, bool) {
        (self.x@, self.y@, self.infinity)
    }
}

/// Projective point on the Weierstrass form; the identity is `(1, 1, 0)`.
#[derive(Clone, Copy, Debug, PartialEq, Eq)]
pub struct G1Projective {
    pub x: Fq,
    pub y: Fq,
    pub z: Fq,
}

impl View for G1Projective {
    type V = (FqV, FqV, FqV);

    open spec fn view(&self) -> (FqV, FqV, FqV) {
        (self.x@, self.y@, self.z@)
    }
}

/// Extended twisted-Edwards projective point `(x, y, z, t)` with
/// `t = x*y/z`; used for intermediate accumulators. The identity is
/// `(0, 1, 1, 0)`.
#[derive(Clone, Copy, Debug, PartialEq, Eq)]
pub struct G1TEProjective {
    pub x: Fq,
    pub y: Fq,
    pub z: Fq,
    pub t: Fq,
}

impl View for G1TEProjective {
    type V = (FqV, FqV, FqV, FqV);

    open spec fn view(&self) -> (FqV, FqV, FqV, FqV) {
        (self.x@, self.y@, self.z@, self.t@)
    }
}

/// The precomputed coordinate of a point `(x, y)`: `kt = (d + d)*x*y`.
pub open spec fn pp_kt_s(x: FqV, y: FqV) -> FqV {
    fq_mul_s(fq_mul_s(fq_add_s(fq_coeff_d_limbs(), fq_coeff_d_limbs()), x), y)
}

/// The preprocessed form of twisted-Edwards affine coordinates `(x, y)`.
pub open spec fn pp_new_s(x: FqV, y: FqV) -> (FqV, FqV, FqV) {
    (x, y, pp_kt_s(x, y))
}

/// The intermediate `x + 1` of the forward conversion.
pub open spec fn xpo_s(x: FqV) -> FqV {
    fq_add_s(x, fq_one_s())
}

/// The intermediate `(x + 1) * s`.
pub open spec fn sxpo_s(x: FqV) -> FqV {
    fq_mul_s(xpo_s(x), fq_s_limbs())
}

/// The intermediate `(x + 1) * sqrt(-a)`.
pub open spec fn axpo_s(x: FqV) -> FqV {
    fq_mul_s(xpo_s(x), fq_sqrt_min_a_limbs())
}

/// The intermediate `(x + 1) * s * y`.
pub open spec fn syxpo_s(x: FqV, y: FqV) -> FqV {
    fq_mul_s(sxpo_s(x), y)
}

/// Numerator of the twisted-Edwards X coordinate.
pub open spec fn te_x_s(x: FqV, y: FqV) -> FqV {
    fq_mul_s(fq_add_s(sxpo_s(x), fq_one_s()), axpo_s(x))
}

/// Numerator of the twisted-Edwards Y coordinate.
pub open spec fn te_y_s(x: FqV, y: FqV) -> FqV {
    fq_sub_s(syxpo_s(x, y), y)
}

/// Common denominator of the twisted-Edwards coordinates.
pub open spec fn te_z_s(x: FqV, y: FqV) -> FqV {
    fq_add_s(syxpo_s(x, y), y)
}

/// What preprocessing one Weierstrass-affine point returns. Infinity maps to
/// the identity `(0, 1, 0)`; a degenerate denominator - zero, or out of
/// canonical form, both impossible for a canonical point on the curve - maps
/// to the all-zero triple; otherwise the twisted-Edwards coordinates are the
/// two quotients, with `kt` precomputed from them.
pub open spec fn preprocess_s(p: (FqV, FqV, bool)) -> (FqV, FqV, FqV) {
    if p.2 {
        (fq_zero_s(), fq_one_s(), fq_zero_s())
    } else if !fq_reduced(te_z_s(p.0, p.1)) || te_z_s(p.0, p.1) == fq_zero_s() {
        (fq_zero_s(), fq_zero_s(), fq_zero_s())
    } else {
        pp_new_s(
            fq_mul_s(te_x_s(p.0, p.1), fq_inv_s(te_z_s(p.0, p.1))),
            fq_mul_s(te_y_s(p.0, p.1), fq_inv_s(te_z_s(p.0, p.1))),
        )
    }
}

/// Whether an extended twisted-Edwards projective view is the identity, as
/// the external curve library defines it: `x = 0`, `y = z`, `y != 0`,
/// `t = 0`.
pub open spec fn te_is_zero_s(p: (FqV, FqV, FqV, FqV)) -> bool {
    p.0 == fq_zero_s() && p.1 == p.2 && p.1 != fq_zero_s() && p.3 == fq_zero_s()
}

/// The identity of the Weierstrass projective form.
pub open spec fn wp_zero_s() -> (FqV, FqV, FqV) {
    (fq_one_s(), fq_one_s(), fq_zero_s())
}

/// What converting an extended twisted-Edwards projective point back to
/// Weierstrass projective coordinates returns. The identity, and every
/// degenerate input on which one of the three inversions has no canonical
/// nonzero operand (impossible for an honest accumulator), map to the
/// Weierstrass identity.
pub open spec fn into_weierstrass_s(p: (FqV, FqV, FqV, FqV)) -> (FqV, FqV, FqV) {
    if te_is_zero_s(p) {
        wp_zero_s()
    } else if !fq_reduced(p.2) || p.2 == fq_zero_s() {
        wp_zero_s()
    } else {
        let aff_x = fq_mul_s(p.0, fq_inv_s(p.2));
        let aff_y = fq_mul_s(p.1, fq_inv_s(p.2));
        let m = fq_sub_s(fq_one_s(), aff_y);
        if !fq_reduced(m) || m == fq_zero_s() {
            wp_zero_s()
        } else if !fq_reduced(aff_x) || aff_x == fq_zero_s() {
            wp_zero_s()
        } else {
            let u = fq_mul_s(fq_add_s(fq_one_s(), aff_y), fq_inv_s(m));
            let v = fq_mul_s(u, fq_inv_s(aff_x));
            (
                fq_sub_s(fq_mul_s(u, fq_s_inv_limbs()), fq_one_s()),
                fq_mul_s(fq_mul_s(v, fq_s_inv_limbs()), fq_sqrt_min_a_limbs()),
                fq_one_s(),
            )
        }
    }
}

impl PreprocessedAffine {
    /// Build the preprocessed form of twisted-Edwards affine coordinates,
    /// computing `kt = (d + d)*x*y`. When either coordinate is zero, so is
    /// `kt`.
    pub fn new(x: Fq, y: Fq) -> (r: Self)
        ensures
            r@ == pp_new_s(x@, y@),
            x@ == fq_zero_s() ==> r@.2 == fq_zero_s(),
            y@ == fq_zero_s() ==> r@.2 == fq_zero_s(),
    {
        let d = fq_coeff_d();
        let kt = fq_mul(&fq_mul(&fq_add(&d, &d), &x), &y);
        PreprocessedAffine { x, y, kt }
    }

    /// The identity `(0, 1, 0)`.
    pub fn zero() -> (r: Self)
        ensures
            r@ == (fq_zero_s(), fq_one_s(), fq_zero_s()),
    {
        PreprocessedAffine { x: fq_zero(), y: fq_one(), kt: fq_zero() }
    }

    /// Whether this is the identity.
    pub fn is_zero(&self) -> (r: bool)
        ensures
            r <==> (self@.0 == fq_zero_s() && self@.1 == fq_one_s()),
    {
        fq_is_zero(&self.x) && fq_eq(&self.y, &fq_one())
    }

    /// The negated point: `(-x, y, -kt)`.
    pub fn neg(&self) -> (r: Self)
        ensures
            r@ == (fq_neg_s(self@.0), self@.1, fq_neg_s(self@.2)),
    {
        PreprocessedAffine { x: fq_neg(&self.x), y: self.y, kt: fq_neg(&self.kt) }
    }
}

/// What the unified mixed addition of a preprocessed affine point into an
/// extended projective accumulator returns. An identity accumulator takes the
/// point's coordinates directly (with `z = 1` and `t = x*y`); otherwise the
/// seven-multiplication unified addition for `a = -1` runs, with the curve
/// constant folded into the precomputed `kt`.
pub open spec fn te_madd_s(a: (FqV, FqV, FqV, FqV), p: (FqV, FqV, FqV)) -> (FqV, FqV, FqV, FqV) {
    if te_is_zero_s(a) {
        (p.0, p.1, fq_one_s(), fq_mul_s(p.0, p.1))
    } else {
        let r1 = fq_sub_s(a.1, a.0);
        let r2 = fq_sub_s(p.1, p.0);
        let r3 = fq_add_s(a.1, a.0);
        let r4 = fq_add_s(p.1, p.0);
        let r5 = fq_mul_s(r1, r2);
        let r6 = fq_mul_s(r3, r4);
        let r7 = fq_mul_s(a.3, p.2);
        let r8 = fq_double_s(a.2);
        let r1b = fq_sub_s(r6, r5);
        let r2b = fq_sub_s(r8, r7);
        let r3b = fq_add_s(r8, r7);
        let r4b = fq_add_s(r6, r5);
        (fq_mul_s(r1b, r2b), fq_mul_s(r3b, r4b), fq_mul_s(r2b, r3b), fq_mul_s(r1b, r4b))
    }
}

impl G1TEProjective {
    /// The identity `(0, 1, 1, 0)`.
    pub fn zero() -> (r: Self)
        ensures
            r@ == (fq_zero_s(), fq_one_s(), fq_one_s(), fq_zero_s()),
    {
        G1TEProjective { x: fq_zero(), y: fq_one(), z: fq_one(), t: fq_zero() }
    }

    /// Whether this is the identity, by the external library's criterion.
    pub fn is_zero(&self) -> (r: bool)
        ensures
            r <==> te_is_zero_s(self@),
    {
        fq_is_zero(&self.x) && fq_eq(&self.y, &self.z) && !fq_is_zero(&self.y) && fq_is_zero(
            &self.t,
        )
    }

    /// Unified mixed addition of a preprocessed affine point into this
    /// accumulator. Adding into an identity accumulator installs the point
    /// itself, so the identity is neutral as an accumulator.
    pub fn add_assign(&mut self, other: &PreprocessedAffine)
        ensures
            final(self)@ == te_madd_s(old(self)@, other@),
    {
        if self.is_zero() {
            self.x = other.x;
            self.y = other.y;
            self.t = fq_mul(&other.x, &other.y);
            self.z = fq_one();
            return ;
        }
        let r1 = fq_sub(&self.y, &self.x);
        let r2 = fq_sub(&other.y, &other.x);
        let r3 = fq_add(&self.y, &self.x);
        let r4 = fq_add(&other.y, &other.x);
        let r5 = fq_mul(&r1, &r2);
        let r6 = fq_mul(&r3, &r4);
        let r7 = fq_mul(&self.t, &other.kt);
        let r8 = fq_double(&self.z);
        let r1b = fq_sub(&r6, &r5);
        let r2b = fq_sub(&r8, &r7);
        let r3b = fq_add(&r8, &r7);
        let r4b = fq_add(&r6, &r5);
        self.x = fq_mul(&r1b, &r2b);
        self.y = fq_mul(&r3b, &r4b);
        self.t = fq_mul(&r1b, &r4b);
        self.z = fq_mul(&r2b, &r3b);
    }

    /// Unified mixed subtraction: addition of the negated point.
    pub fn sub_assign(&mut self, other: &PreprocessedAffine)
        ensures
            final(self)@ == te_madd_s(
                old(self)@,
                (fq_neg_s(other@.0), other@.1, fq_neg_s(other@.2)),
            ),
    {
        let n = other.neg();
        self.add_assign(&n);
    }
}

/// What the external unified projective addition returns for two extended
/// twisted-Edwards projective points.
pub uninterp spec fn te_add_s(
    a: (FqV, FqV, FqV, FqV),
    b: (FqV, FqV, FqV, FqV),
) -> (FqV, FqV, FqV, FqV);

/// What the external extended twisted-Edwards doubling returns.
pub uninterp spec fn te_double_s(a: (FqV, FqV, FqV, FqV)) -> (FqV, FqV, FqV, FqV);

/// Relies on the unified extended twisted-Edwards addition of `ark_ec`
/// (`Projective` + `Projective` on the BLS12-377 G1 Edwards form): a pure
/// function of the two points' coordinates.
#[verifier::external_body]
pub fn te_add(a: &G1TEProjective, b: &G1TEProjective) -> (r: G1TEProjective)
    ensures
        r@ == te_add_s(a@, b@),
{
    let f = |l: [u64; 6]| -> ark_bls12_377::Fq { Fp(BigInt(l), PhantomData) };
    let pa = ArkTe::new_unchecked(f(a.x.limbs), f(a.y.limbs), f(a.t.limbs), f(a.z.limbs));
    let pb = ArkTe::new_unchecked(f(b.x.limbs), f(b.y.limbs), f(b.t.limbs), f(b.z.limbs));
    let r = pa + pb;
    G1TEProjective {
        x: Fq { limbs: r.x.0.0 },
        y: Fq { limbs: r.y.0.0 },
        z: Fq { limbs: r.z.0.0 },
        t: Fq { limbs: r.t.0.0 },
    }
}

/// Relies on `ark_ec::Group::double_in_place` on the BLS12-377 G1 Edwards
/// form: a pure function of the point's coordinates.
#[verifier::external_body]
pub fn te_double(a: &G1TEProjective) -> (r: G1TEProjective)
    ensures
        r@ == te_double_s(a@),
{
    let f = |l: [u64; 6]| -> ark_bls12_377::Fq { Fp(BigInt(l), PhantomData) };
    let mut p = ArkTe::new_unchecked(f(a.x.limbs), f(a.y.limbs), f(a.t.limbs), f(a.z.limbs));
    ark_ec::Group::double_in_place(&mut p);
    G1TEProjective {
        x: Fq { limbs: p.x.0.0 },
        y: Fq { limbs: p.y.0.0 },
        z: Fq { limbs: p.z.0.0 },
        t: Fq { limbs: p.t.0.0 },
    }
}

/// The accumulator after `c` external doublings.
pub open spec fn te_shifted_s(a: (FqV, FqV, FqV, FqV), c: nat) -> (FqV, FqV, FqV, FqV)
    decreases c,
{
    if c == 0 {
        a
    } else {
        te_double_s(te_shifted_s(a, (c - 1) as nat))
    }
}

/// Multiply the accumulator by `2^c` through `c` doublings (a left shift by
/// `c` binary digit positions).
pub fn shl_assign(point: &mut G1TEProjective, c: usize)
    ensures
        final(point)@ == te_shifted_s(old(point)@, c as nat),
{
    let mut k: usize = 0;
    while k < c
        invariant
            k <= c,
            point@ == te_shifted_s(old(point)@, k as nat),
        decreases c - k,
    {
        *point = te_double(&*point);
        k += 1;
    }
}

/// Preprocess one Weierstrass-affine point.
pub fn preprocess(point: &G1Affine) -> (r: G1PTEAffine)
    ensures
        r@ == preprocess_s(point@),
{
    if point.infinity {
        return PreprocessedAffine::zero();
    }
    let xpo = fq_add(&point.x, &fq_one());
    let sxpo = fq_mul(&xpo, &fq_s());
    let axpo = fq_mul(&xpo, &fq_sqrt_min_a());
    let syxpo = fq_mul(&sxpo, &point.y);
    let x = fq_mul(&fq_add(&sxpo, &fq_one()), &axpo);
    let y = fq_sub(&syxpo, &point.y);
    let z = fq_add(&syxpo, &point.y);
    let z_inv = if fq_is_reduced(&z) {
        match fq_inverse(&z) {
            Some(v) => v,
            None => fq_zero(),
        }
    } else {
        fq_zero()
    };
    PreprocessedAffine::new(fq_mul(&x, &z_inv), fq_mul(&y, &z_inv))
}

/// Convert a slice of Weierstrass-affine points to preprocessed
/// twisted-Edwards form in batch, sharing one modular inversion across the
/// slice. Entry by entry the result equals `preprocess` of the same input.
pub fn batch_preprocess(a: &[G1Affine], b: &mut Vec<G1PTEAffine>)
    requires
        old(b)@.len() == a@.len(),
    ensures
        final(b)@.len() == a@.len(),
        forall|k: int| 0 <= k < a@.len() ==> (#[trigger] final(b)@[k])@ == preprocess_s(a@[k]@),
{
    let n = a.len();
    let mut x: Vec<Fq> = Vec::new();
    let mut y: Vec<Fq> = Vec::new();
    let mut z: Vec<Fq> = Vec::new();
    let mut i: usize = 0;
    while i < n
        invariant
            n == a@.len(),
            i <= n,
            x@.len() == i,
            y@.len() == i,
            z@.len() == i,
            forall|k: int|
                0 <= k < i ==> (#[trigger] z@[k])@ == (if a@[k]@.2 {
                    fq_one_s()
                } else if !fq_reduced(te_z_s(a@[k]@.0, a@[k]@.1)) {
                    fq_zero_s()
                } else {
                    te_z_s(a@[k]@.0, a@[k]@.1)
                }),
            forall|k: int|
                0 <= k < i ==> (#[trigger] x@[k])@ == (if a@[k]@.2 {
                    fq_zero_s()
                } else {
                    te_x_s(a@[k]@.0, a@[k]@.1)
                }),
            forall|k: int|
                0 <= k < i ==> (#[trigger] y@[k])@ == (if a@[k]@.2 {
                    fq_one_s()
                } else {
                    te_y_s(a@[k]@.0, a@[k]@.1)
                }),
        decreases n - i,
    {
        let p = &a[i];
        if p.infinity {
            x.push(fq_zero());
            y.push(fq_one());
            z.push(fq_one());
        } else {
            let xpo = fq_add(&p.x, &fq_one());
            let sxpo = fq_mul(&xpo, &fq_s());
            let axpo = fq_mul(&xpo, &fq_sqrt_min_a());
            let syxpo = fq_mul(&sxpo, &p.y);
            x.push(fq_mul(&fq_add(&sxpo, &fq_one()), &axpo));
            y.push(fq_sub(&syxpo, &p.y));
            let zval = fq_add(&syxpo, &p.y);
            if fq_is_reduced(&zval) {
                z.push(zval);
            } else {
                z.push(fq_zero());
            }
        }
        i += 1;
    }
    proof {
        assert(fq_reduced(fq_one_s()));
        assert(fq_reduced(fq_zero_s()));
        assert forall|k: int| 0 <= k < z@.len() implies fq_reduced((#[trigger] z@[k])@) by {}
    }
    fq_batch_inversion(&mut z);
    let mut i: usize = 0;
    while i < n
        invariant
            n == a@.len(),
            i <= n,
            b@.len() == n,
            x@.len() == n,
            y@.len() == n,
            z@.len() == n,
            forall|k: int|
                0 <= k < n ==> (#[trigger] z@[k])@ == (if a@[k]@.2 {
                    fq_one_s()
                } else if !fq_reduced(te_z_s(a@[k]@.0, a@[k]@.1)) || te_z_s(a@[k]@.0, a@[k]@.1)
                    == fq_zero_s() {
                    fq_zero_s()
                } else {
                    fq_inv_s(te_z_s(a@[k]@.0, a@[k]@.1))
                }),
            forall|k: int|
                0 <= k < n ==> (#[trigger] x@[k])@ == (if a@[k]@.2 {
                    fq_zero_s()
                } else {
                    te_x_s(a@[k]@.0, a@[k]@.1)
                }),
            forall|k: int|
                0 <= k < n ==> (#[trigger] y@[k])@ == (if a@[k]@.2 {
                    fq_one_s()
                } else {
                    te_y_s(a@[k]@.0, a@[k]@.1)
                }),
            forall|k: int| 0 <= k < i ==> (#[trigger] b@[k])@ == preprocess_s(a@[k]@),
        decreases n - i,
    {
        b[i] = PreprocessedAffine::new(fq_mul(&x[i], &z[i]), fq_mul(&y[i], &z[i]));
        i += 1;
    }
}

/// Chunk size bounding the scratch memory of batched preprocessing.
pub const PREPROCESS_CHUNK: usize = 65536;

/// Preprocess a whole slice of points, sharding into chunks to cap peak
/// scratch memory.
pub fn preprocess_points(points: &[G1Affine]) -> (r: Vec<G1PTEAffine>)
    ensures
        r@.len() == points@.len(),
        forall|k: int| 0 <= k < points@.len() ==> (#[trigger] r@[k])@ == preprocess_s(points@[k]@),
{
    let n = points.len();
    let mut out: Vec<G1PTEAffine> = Vec::new();
    let mut start: usize = 0;
    while start < n
        invariant
            n == points@.len(),
            start <= n,
            out@.len() == start,
            forall|k: int|
                0 <= k < start ==> (#[trigger] out@[k])@ == preprocess_s(points@[k]@),
        decreases n - start,
    {
        let len = if n - start < PREPROCESS_CHUNK {
            n - start
        } else {
            PREPROCESS_CHUNK
        };
        let chunk = vstd::slice::slice_subrange(points, start, start + len);
        let mut tmp: Vec<G1PTEAffine> = Vec::new();
        let mut j: usize = 0;
        while j < len
            invariant
                tmp@.len() == j,
                j <= len,
            decreases len - j,
        {
            tmp.push(PreprocessedAffine::zero());
            j += 1;
        }
        batch_preprocess(chunk, &mut tmp);
        let mut j: usize = 0;
        while j < len
            invariant
                n == points@.len(),
                start + len <= n,
                j <= len,
                out@.len() == start + j,
                tmp@.len() == len,
                chunk@ == points@.subrange(start as int, (start + len) as int),
                forall|k: int| 0 <= k < len ==> (#[trigger] tmp@[k])@ == preprocess_s(chunk@[k]@),
                forall|k: int|
                    0 <= k < start + j ==> (#[trigger] out@[k])@ == preprocess_s(points@[k]@),
            decreases len - j,
        {
            out.push(tmp[j]);
            j += 1;
        }
        start += len;
    }
    out
}

/// Convert an extended twisted-Edwards projective point to Weierstrass
/// projective coordinates. The identity (and any degenerate input, which an
/// honest accumulator never produces) maps to the Weierstrass identity.
pub fn into_weierstrass(point: &G1TEProjective) -> (r: G1Projective)
    ensures
        r@ == into_weierstrass_s(point@),
{
    if point.is_zero() {
        return G1Projective { x: fq_one(), y: fq_one(), z: fq_zero() };
    }
    if !fq_is_reduced(&point.z) {
        return G1Projective { x: fq_one(), y: fq_one(), z: fq_zero() };
    }
    let z_inv = match fq_inverse(&point.z) {
        Some(v) => v,
        None => {
            return G1Projective { x: fq_one(), y: fq_one(), z: fq_zero() };
        },
    };
    let aff_x = fq_mul(&point.x, &z_inv);
    let aff_y = fq_mul(&point.y, &z_inv);
    let p = fq_add(&fq_one(), &aff_y);
    let m = fq_sub(&fq_one(), &aff_y);
    if !fq_is_reduced(&m) {
        return G1Projective { x: fq_one(), y: fq_one(), z: fq_zero() };
    }
    let m_inv = match fq_inverse(&m) {
        Some(v) => v,
        None => {
            return G1Projective { x: fq_one(), y: fq_one(), z: fq_zero() };
        },
    };
    let u = fq_mul(&p, &m_inv);
    if !fq_is_reduced(&aff_x) {
        return G1Projective { x: fq_one(), y: fq_one(), z: fq_zero() };
    }
    let x_inv = match fq_inverse(&aff_x) {
        Some(v) => v,
        None => {
            return G1Projective { x: fq_one(), y: fq_one(), z: fq_zero() };
        },
    };
    let v = fq_mul(&u, &x_inv);
    let x = fq_sub(&fq_mul(&u, &fq_s_inv()), &fq_one());
    let y = fq_mul(&fq_mul(&v, &fq_s_inv()), &fq_sqrt_min_a());
    G1Projective { x, y, z: fq_one() }
}

/// Identity handling, as far as it is decided by this library's own code
/// rather than by field algebra: preprocessing the point at infinity yields
/// the twisted-Edwards identity `(0, 1, 0)`; adding any preprocessed point
/// into an identity accumulator installs exactly that point (so an identity
/// accumulator is neutral); and converting an identity accumulator back
/// yields the Weierstrass identity.
pub proof fn lemma_identity_handling(
    p: (FqV, FqV, bool),
    q: (FqV, FqV, FqV),
    a: (FqV, FqV, FqV, FqV),
)
    requires
        p.2,
        te_is_zero_s(a),
    ensures
        preprocess_s(p) == (fq_zero_s(), fq_one_s(), fq_zero_s()),
        te_madd_s(a, q) == (q.0, q.1, fq_one_s(), fq_mul_s(q.0, q.1)),
        into_weierstrass_s(a) == wp_zero_s(),
{
}

/// Batch-preprocess equivalence: entry `i` of the batched conversion is
/// exactly the single-point conversion of input `i`; both sides meet the one
/// specification `preprocess_s`, stated here in one place.
pub proof fn lemma_batch_preprocess_matches_single(
    a: Seq<(FqV, FqV, bool)>,
    out: Seq<(FqV, FqV, FqV)>,
    i: int,
)
    requires
        out.len() == a.len(),
        forall|k: int| 0 <= k < a.len() ==> out[k] == preprocess_s(#[trigger] a[k]),
        0 <= i < a.len(),
    ensures
        out[i] == preprocess_s(a[i]),
{
}

} // verus!

