//! Thin adapter over the external arithmetic of the BLS12-377 base field F_q.
//!
//! A field element is six little-endian 64-bit limbs holding the Montgomery
//! residue, exactly the representation the external field library and the
//! accelerator both use; the arithmetic itself is the external library's and
//! stays behind trusted wrappers. The constants defining the
//! Weierstrass-to-twisted-Edwards isomorphism are fixed 377-bit values,
//! embedded here in the same Montgomery limb form.
//!
//! Honest values are in canonical form: the limbs, read as an integer, lie
//! below the modulus. The limb type itself admits any pattern, though - a
//! coordinate read back from the device is whatever the device answered - so
//! canonical form is spelled out (`fq_reduced`), decidable at run time
//! (`fq_is_reduced`), demanded by the wrappers whose external code would
//! spin or panic without it (inversion), and named in the clauses that hold
//! only on canonical operands.

use vstd::prelude::*;

verus! {

/// An element of F_q, the 377-bit prime base field: six little-endian 64-bit
/// limbs of the Montgomery residue.
#[derive(Clone, Copy, Debug, PartialEq, Eq)]
pub struct Fq {
    pub limbs: [u64; 6],
}

impl View for Fq {
    type V = Seq<u64>;

    open spec fn view(&self) -> Seq<u64> {
        self.limbs@
    }
}

/// The limbs of the zero element (the Montgomery residue of zero is zero).
pub open spec fn fq_zero_s() -> Seq<u64> {
    seq![0u64, 0u64, 0u64, 0u64, 0u64, 0u64]
}

/// The limbs of the 377-bit prime modulus itself.
pub open spec fn fq_modulus_s() -> Seq<u64> {
    seq![
        0x8508c00000000001u64,
        0x170b5d4430000000u64,
        0x1ef3622fba094800u64,
        0x1a22d9f300f5138fu64,
        0xc63b05c06ca1493bu64,
        0x01ae3a4617c510eau64,
    ]
}

/// Whether six limbs are in canonical (reduced) form: read as a little-endian
/// integer they lie strictly below the modulus. Only such a pattern uniquely
/// represents its residue; in particular the zero pattern is then the one
/// representation of zero.
pub open spec fn fq_reduced(a: Seq<u64>) -> bool {
    a.len() == 6 && (a[5] < fq_modulus_s()[5] || (a[5] == fq_modulus_s()[5] && (a[4]
        < fq_modulus_s()[4] || (a[4] == fq_modulus_s()[4] && (a[3] < fq_modulus_s()[3] || (a[3]
        == fq_modulus_s()[3] && (a[2] < fq_modulus_s()[2] || (a[2] == fq_modulus_s()[2] && (a[1]
        < fq_modulus_s()[1] || (a[1] == fq_modulus_s()[1] && a[0] < fq_modulus_s()[0]))))))))))
}

/// Decide whether an element's limbs are in canonical form.
pub fn fq_is_reduced(a: &Fq) -> (r: bool)
    ensures
        r <==> fq_reduced(a@),
{
    let m: [u64; 6] = [
        0x8508c00000000001,
        0x170b5d4430000000,
        0x1ef3622fba094800,
        0x1a22d9f300f5138f,
        0xc63b05c06ca1493b,
        0x01ae3a4617c510ea,
    ];
    proof {
        assert(m@ =~= fq_modulus_s());
    }
    let mut k: usize = 6;
    loop
        invariant
            k <= 6,
            m@ == fq_modulus_s(),
            forall|q: int| k <= q < 6 ==> a@[q] == fq_modulus_s()[q],
        decreases k,
    {
        if k == 0 {
            proof {
                assert(!fq_reduced(a@));
            }
            return false;
        }
        k = k - 1;
        if a.limbs[k] < m[k] {
            proof {
                assert(fq_reduced(a@));
            }
            return true;
        }
        if a.limbs[k] > m[k] {
            proof {
                assert(!fq_reduced(a@));
            }
            return false;
        }
    }
}

/// The limbs of the one element.
pub open spec fn fq_one_s() -> Seq<u64> {
    seq![
        0x02cdffffffffff68u64,
        0x51409f837fffffb1u64,
        0x9f7db3a98a7d3ff2u64,
        0x7b4e97b76e7c6305u64,
        0x4cf495bf803c84e8u64,
        0x008d6661e2fdf49au64,
    ]
}

/// What the external field addition returns for two limb patterns (the
/// canonical sum whenever both operands are canonical).
pub uninterp spec fn fq_add_s(a: Seq<u64>, b: Seq<u64>) -> Seq<u64>;

/// What the external field subtraction returns.
pub uninterp spec fn fq_sub_s(a: Seq<u64>, b: Seq<u64>) -> Seq<u64>;

/// What the external field multiplication returns.
pub uninterp spec fn fq_mul_s(a: Seq<u64>, b: Seq<u64>) -> Seq<u64>;

/// What the external field negation returns.
pub uninterp spec fn fq_neg_s(a: Seq<u64>) -> Seq<u64>;

/// What the external field doubling returns.
pub uninterp spec fn fq_double_s(a: Seq<u64>) -> Seq<u64>;

/// What the external field inversion returns on a non-zero canonical
/// element. Two external entry points stand behind this one name - the
/// single inversion and the per-element result of the batched form - and
/// they agree: both return the canonical representative of the inverse
/// residue.
pub uninterp spec fn fq_inv_s(a: Seq<u64>) -> Seq<u64>;

/// The zero element.
pub fn fq_zero() -> (r: Fq)
    ensures
        r@ == fq_zero_s(),
{
    let r = Fq { limbs: [0, 0, 0, 0, 0, 0] };
    proof {
        assert(r@ =~= fq_zero_s());
    }
    r
}

/// The one element.
pub fn fq_one() -> (r: Fq)
    ensures
        r@ == fq_one_s(),
{
    let r = Fq {
        limbs: [
            0x02cdffffffffff68,
            0x51409f837fffffb1,
            0x9f7db3a98a7d3ff2,
            0x7b4e97b76e7c6305,
            0x4cf495bf803c84e8,
            0x008d6661e2fdf49a,
        ],
    };
    proof {
        assert(r@ =~= fq_one_s());
    }
    r
}

/// Whether the element is zero: the Montgomery residue of zero is the all-zero
/// limb pattern.
pub fn fq_is_zero(a: &Fq) -> (r: bool)
    ensures
        r <==> a@ == fq_zero_s(),
{
    let r = a.limbs[0] == 0 && a.limbs[1] == 0 && a.limbs[2] == 0 && a.limbs[3] == 0 && a.limbs[4]
        == 0 && a.limbs[5] == 0;
    proof {
        if r {
            assert(a@ =~= fq_zero_s());
        } else {
            assert(a@ != fq_zero_s());
        }
    }
    r
}

/// Whether two elements hold the same residue (the representation is
/// canonical, so limb equality is element equality).
pub fn fq_eq(a: &Fq, b: &Fq) -> (r: bool)
    ensures
        r <==> a@ == b@,
{
    let r = a.limbs[0] == b.limbs[0] && a.limbs[1] == b.limbs[1] && a.limbs[2] == b.limbs[2]
        && a.limbs[3] == b.limbs[3] && a.limbs[4] == b.limbs[4] && a.limbs[5] == b.limbs[5];
    proof {
        if r {
            assert(a@ =~= b@);
        }
    }
    r
}

/// Relies on the field addition of `ark_bls12_377::Fq` (`ark_ff::Fp`): a pure
/// function of the two residues.
#[verifier::external_body]
pub fn fq_add(a: &Fq, b: &Fq) -> (r: Fq)
    ensures
        r@ == fq_add_s(a@, b@),
{
    let x: ark_bls12_377::Fq = ark_ff::Fp(ark_ff::BigInt(a.limbs), core::marker::PhantomData);
    let y: ark_bls12_377::Fq = ark_ff::Fp(ark_ff::BigInt(b.limbs), core::marker::PhantomData);
    Fq { limbs: (x + y).0.0 }
}

/// Relies on the field subtraction of `ark_bls12_377::Fq`.
#[verifier::external_body]
pub fn fq_sub(a: &Fq, b: &Fq) -> (r: Fq)
    ensures
        r@ == fq_sub_s(a@, b@),
{
    let x: ark_bls12_377::Fq = ark_ff::Fp(ark_ff::BigInt(a.limbs), core::marker::PhantomData);
    let y: ark_bls12_377::Fq = ark_ff::Fp(ark_ff::BigInt(b.limbs), core::marker::PhantomData);
    Fq { limbs: (x - y).0.0 }
}

/// Relies on the field multiplication of `ark_bls12_377::Fq`: zero is
/// absorbing, and one is neutral on a canonical operand (the product comes
/// back in canonical form, so only a canonical operand can come back
/// unchanged).
#[verifier::external_body]
pub fn fq_mul(a: &Fq, b: &Fq) -> (r: Fq)
    ensures
        r@ == fq_mul_s(a@, b@),
        a@ == fq_zero_s() ==> r@ == fq_zero_s(),
        b@ == fq_zero_s() ==> r@ == fq_zero_s(),
        a@ == fq_one_s() && fq_reduced(b@) ==> r@ == b@,
        b@ == fq_one_s() && fq_reduced(a@) ==> r@ == a@,
{
    let x: ark_bls12_377::Fq = ark_ff::Fp(ark_ff::BigInt(a.limbs), core::marker::PhantomData);
    let y: ark_bls12_377::Fq = ark_ff::Fp(ark_ff::BigInt(b.limbs), core::marker::PhantomData);
    Fq { limbs: (x * y).0.0 }
}

/// Relies on the field negation of `ark_bls12_377::Fq`.
#[verifier::external_body]
pub fn fq_neg(a: &Fq) -> (r: Fq)
    ensures
        r@ == fq_neg_s(a@),
{
    let x: ark_bls12_377::Fq = ark_ff::Fp(ark_ff::BigInt(a.limbs), core::marker::PhantomData);
    Fq { limbs: (-x).0.0 }
}

/// Relies on `ark_ff::Field::double` of `ark_bls12_377::Fq`.
#[verifier::external_body]
pub fn fq_double(a: &Fq) -> (r: Fq)
    ensures
        r@ == fq_double_s(a@),
{
    let x: ark_bls12_377::Fq = ark_ff::Fp(ark_ff::BigInt(a.limbs), core::marker::PhantomData);
    Fq { limbs: ark_ff::Field::double(&x).0.0 }
}

/// Relies on `ark_ff::Field::inverse` of `ark_bls12_377::Fq`: on a canonical
/// operand, `None` exactly on the zero element, otherwise the multiplicative
/// inverse. Canonical form is demanded because the binary Euclidean loop
/// inside does not terminate on a non-canonical representation of zero (such
/// as the limbs of the modulus itself).
#[verifier::external_body]
pub fn fq_inverse(a: &Fq) -> (r: Option<Fq>)
    requires
        fq_reduced(a@),
    ensures
        r is None <==> a@ == fq_zero_s(),
        r is Some ==> r->Some_0@ == fq_inv_s(a@),
{
    let x: ark_bls12_377::Fq = ark_ff::Fp(ark_ff::BigInt(a.limbs), core::marker::PhantomData);
    match ark_ff::Field::inverse(&x) {
        Some(y) => Some(Fq { limbs: y.0.0 }),
        None => None,
    }
}

/// Relies on `ark_ff::batch_inversion`: inverts every element of the vector in
/// place by Montgomery's trick, leaving zero entries unchanged. Inverting the
/// one element returns it unchanged, as in any field. Canonical form is
/// demanded of every entry: its zero test is limb equality, so a
/// non-canonical representation of zero would drive the running product to
/// zero and the one inversion inside onto an unwrap that panics.
#[verifier::external_body]
pub fn fq_batch_inversion(v: &mut Vec<Fq>)
    requires
        forall|k: int| 0 <= k < old(v)@.len() ==> fq_reduced((#[trigger] old(v)@[k])@),
    ensures
        final(v)@.len() == old(v)@.len(),
        forall|k: int|
            0 <= k < old(v)@.len() ==> (#[trigger] final(v)@[k])@ == (if old(v)@[k]@ == fq_zero_s() {
                old(v)@[k]@
            } else {
                fq_inv_s(old(v)@[k]@)
            }),
        forall|k: int|
            0 <= k < old(v)@.len() && old(v)@[k]@ == fq_one_s() ==> (#[trigger] final(v)@[k])@
                == fq_one_s(),
{
    let mut tmp: Vec<ark_bls12_377::Fq> = v.iter().map(
        |e: &Fq| -> ark_bls12_377::Fq { ark_ff::Fp(ark_ff::BigInt(e.limbs), core::marker::PhantomData) },
    ).collect();
    ark_ff::batch_inversion(&mut tmp);
    for (dst, src) in v.iter_mut().zip(tmp.into_iter()) {
        dst.limbs = src.0.0;
    }
}

/// The constant `s` of the Weierstrass-to-twisted-Edwards isomorphism:
/// 10189023633222963290707194929886294091415157242906428298294512798502806398782149227503530278436336312243746741931.
pub fn fq_s() -> (r: Fq)
    ensures
        r@ == fq_s_limbs(),
{
    let r = Fq {
        limbs: [
            0x6de9ca9ad831a0a2,
            0xa8aff4220eb51c8e,
            0x5a76e6c593607959,
            0x57f38956d3806339,
            0xc50636f4a0c6fe30,
            0x018f4652f52bfd14,
        ],
    };
    proof {
        assert(r@ =~= fq_s_limbs());
    }
    r
}

/// Limbs of the constant `s`.
pub open spec fn fq_s_limbs() -> Seq<u64> {
    seq![
        0x6de9ca9ad831a0a2u64,
        0xa8aff4220eb51c8eu64,
        0x5a76e6c593607959u64,
        0x57f38956d3806339u64,
        0xc50636f4a0c6fe30u64,
        0x018f4652f52bfd14u64,
    ]
}

/// The inverse `1/s` of the isomorphism constant:
/// 30567070899668889872121584789658882274245471728719284894883538395508419196346447682510590835309008936731240225793.
pub fn fq_s_inv() -> (r: Fq)
    ensures
        r@ == fq_s_inv_limbs(),
{
    let r = Fq {
        limbs: [
            0x3fabdfd08894e1e4,
            0xcbf921ddcc1f55aa,
            0xd17deff1460edc0c,
            0xd394e81e7897028d,
            0xc29c995d0912681a,
            0x01515e6caff9d568,
        ],
    };
    proof {
        assert(r@ =~= fq_s_inv_limbs());
    }
    r
}

/// Limbs of the constant `1/s`.
pub open spec fn fq_s_inv_limbs() -> Seq<u64> {
    seq![
        0x3fabdfd08894e1e4u64,
        0xcbf921ddcc1f55aau64,
        0xd17deff1460edc0cu64,
        0xd394e81e7897028du64,
        0xc29c995d0912681au64,
        0x01515e6caff9d568u64,
    ]
}

/// The square root of the negated twisted-Edwards `a` coefficient:
/// 235104237478051516191809091778322087600408126435680774020954291067230236919576441851480900410358060820255406299421.
pub fn fq_sqrt_min_a() -> (r: Fq)
    ensures
        r@ == fq_sqrt_min_a_limbs(),
{
    let r = Fq {
        limbs: [
            0x898cb5471529fa1d,
            0xe0cfc9724d8ad385,
            0x4ccef9faa5bd62c9,
            0x2e96e315be55f317,
            0x8b9c081e6a6c7517,
            0x0071c1025db89e46,
        ],
    };
    proof {
        assert(r@ =~= fq_sqrt_min_a_limbs());
    }
    r
}

/// Limbs of the constant `sqrt(-a)`.
pub open spec fn fq_sqrt_min_a_limbs() -> Seq<u64> {
    seq![
        0x898cb5471529fa1du64,
        0xe0cfc9724d8ad385u64,
        0x4ccef9faa5bd62c9u64,
        0x2e96e315be55f317u64,
        0x8b9c081e6a6c7517u64,
        0x0071c1025db89e46u64,
    ]
}

/// The twisted-Edwards curve coefficient `d` of the BLS12-377 G1 Edwards form:
/// 122268283598675559488486339158635529096981886914877139579534153582033676785385790730042363341236035746924960903179.
pub fn fq_coeff_d() -> (r: Fq)
    ensures
        r@ == fq_coeff_d_limbs(),
{
    let r = Fq {
        limbs: [
            0x7925bf4222538363,
            0xf57011bac07d547d,
            0x07a6be793f79c7d2,
            0x2acb84bee2f95d93,
            0x45fb60ee86cad49f,
            0x00bc23017dffb145,
        ],
    };
    proof {
        assert(r@ =~= fq_coeff_d_limbs());
    }
    r
}

/// Limbs of the curve coefficient `d`.
pub open spec fn fq_coeff_d_limbs() -> Seq<u64> {
    seq![
        0x7925bf4222538363u64,
        0xf57011bac07d547du64,
        0x07a6be793f79c7d2u64,
        0x2acb84bee2f95d93u64,
        0x45fb60ee86cad49fu64,
        0x00bc23017dffb145u64,
    ]
}

} // verus!
