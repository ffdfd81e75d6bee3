//! Scalar recoding into signed 16-bit digit columns.
//!
//! A 256-bit scalar (four little-endian 64-bit limbs) is re-expressed as
//! sixteen signed digits, one per 16-bit half-word position, such that
//!
//! ```text
//! scalar = sum over i, j of d(i, j) * 2^(64*i + 16*j)
//! ```
//!
//! with every digit in `[-2^15, 2^15 - 1]`. A raw half-word of `2^15` or more
//! is replaced by its value minus `2^16`, and a carry of one moves into the
//! next half-word position; carries cascade across limb boundaries. The carry
//! into the topmost half-word is absorbed there, which cannot itself carry as
//! long as the chain ends carry-free (scalars below `2^253` always do).

use vstd::arithmetic::power2::{lemma2_to64, lemma2_to64_rest, lemma_pow2_adds, pow2};
use vstd::prelude::*;

verus! {

/// Signed 16-bit digit, the accelerator's per-lane command payload.
pub type Digit = i16;

/// Unsigned 64-bit limb of a scalar.
pub type Limb = u64;

/// 256-bit scalar composed of four limbs, least-significant limb first.
pub type Scalar = [Limb; 4];

/// `2^(16*p)`, the weight of half-word position `p`, for `p` in `0..=16`.
pub open spec fn w16(p: int) -> int {
    if p <= 0 {
        1
    } else if p == 1 {
        0x1_0000
    } else if p == 2 {
        0x1_0000_0000
    } else if p == 3 {
        0x1_0000_0000_0000
    } else if p == 4 {
        0x1_0000_0000_0000_0000int
    } else if p == 5 {
        0x1_0000_0000_0000_0000_0000int
    } else if p == 6 {
        0x1_0000_0000_0000_0000_0000_0000int
    } else if p == 7 {
        0x1_0000_0000_0000_0000_0000_0000_0000int
    } else if p == 8 {
        0x1_0000_0000_0000_0000_0000_0000_0000_0000int
    } else if p == 9 {
        0x1_0000_0000_0000_0000_0000_0000_0000_0000_0000int
    } else if p == 10 {
        0x1_0000_0000_0000_0000_0000_0000_0000_0000_0000_0000int
    } else if p == 11 {
        0x1_0000_0000_0000_0000_0000_0000_0000_0000_0000_0000_0000int
    } else if p == 12 {
        0x1_0000_0000_0000_0000_0000_0000_0000_0000_0000_0000_0000_0000int
    } else if p == 13 {
        0x1_0000_0000_0000_0000_0000_0000_0000_0000_0000_0000_0000_0000_0000int
    } else if p == 14 {
        0x1_0000_0000_0000_0000_0000_0000_0000_0000_0000_0000_0000_0000_0000_0000int
    } else if p == 15 {
        0x1_0000_0000_0000_0000_0000_0000_0000_0000_0000_0000_0000_0000_0000_0000_0000int
    } else {
        0x1_0000_0000_0000_0000_0000_0000_0000_0000_0000_0000_0000_0000_0000_0000_0000_0000int
    }
}

/// The weight table is exactly the powers of two `2^(16*p)`.
pub proof fn lemma_w16_is_pow2(p: int)
    requires
        0 <= p <= 16,
    ensures
        w16(p) == pow2((16 * p) as nat),
{
    lemma2_to64();
    lemma2_to64_rest();
    lemma_pow2_adds(64, 16);
    lemma_pow2_adds(80, 16);
    lemma_pow2_adds(96, 16);
    lemma_pow2_adds(112, 16);
    lemma_pow2_adds(128, 16);
    lemma_pow2_adds(144, 16);
    lemma_pow2_adds(160, 16);
    lemma_pow2_adds(176, 16);
    lemma_pow2_adds(192, 16);
    lemma_pow2_adds(208, 16);
    lemma_pow2_adds(224, 16);
    lemma_pow2_adds(240, 16);
}

/// Half-word `j` (of four, least-significant first) of a 64-bit limb.
pub open spec fn half16(l: u64, j: int) -> u64 {
    if j == 0 {
        l & 0xffff
    } else if j == 1 {
        (l >> 16) & 0xffff
    } else if j == 2 {
        (l >> 32) & 0xffff
    } else {
        (l >> 48) & 0xffff
    }
}

/// Half-word at global position `p` in `0..16`: half `p % 4` of limb `p / 4`.
pub open spec fn scalar_half(s: Scalar, p: int) -> u64 {
    half16(s@[p / 4], p % 4)
}

/// Carry entering global half-word position `p` of the recoding chain.
pub open spec fn carry_at(s: Scalar, p: int) -> u64
    decreases p,
{
    if p <= 0 {
        0
    } else if scalar_half(s, p - 1) + carry_at(s, p - 1) >= 0x8000 {
        1
    } else {
        0
    }
}

/// Signed digit emitted at global half-word position `p`.
pub open spec fn digit_at(s: Scalar, p: int) -> int {
    let t = scalar_half(s, p) + carry_at(s, p);
    if t >= 0x8000 {
        t - 0x10000
    } else {
        t
    }
}

/// The 16-bit two's-complement pattern of the digit at position `p`.
pub open spec fn digit_bits(s: Scalar, p: int) -> u64 {
    (scalar_half(s, p) + carry_at(s, p)) as u64 & 0xffff
}

/// The integer value of a scalar.
pub open spec fn scalar_value(s: Scalar) -> int {
    s@[0] + s@[1] * w16(4) + s@[2] * w16(8) + s@[3] * w16(12)
}

/// Value of the digits strictly below global position `k`, weighted by
/// `2^(16*p)`.
pub open spec fn digits_value(s: Scalar, k: int) -> int
    decreases k,
{
    if k <= 0 {
        0
    } else {
        digits_value(s, k - 1) + digit_at(s, k - 1) * w16(k - 1)
    }
}

/// Value of the raw half-words strictly below global position `k`, weighted by
/// `2^(16*p)`.
pub open spec fn halves_value(s: Scalar, k: int) -> int
    decreases k,
{
    if k <= 0 {
        0
    } else {
        halves_value(s, k - 1) + scalar_half(s, k - 1) * w16(k - 1)
    }
}

/// The recoded image of one scalar: limb `i` packs the two's-complement
/// patterns of the four digits of positions `4*i .. 4*i + 4`.
pub open spec fn recoded_limb(s: Scalar, i: int) -> u64 {
    (digit_bits(s, 4 * i) | (digit_bits(s, 4 * i + 1) << 16) | (digit_bits(s, 4 * i + 2) << 32) | (
    digit_bits(s, 4 * i + 3) << 48)) as u64
}

/// Whole recoded scalar, as stored into the carry output array.
pub open spec fn recoded_scalar(s: Scalar) -> Scalar {
    [recoded_limb(s, 0), recoded_limb(s, 1), recoded_limb(s, 2), recoded_limb(s, 3)]
}

/// Reading a half-word back as a signed 16-bit value.
pub open spec fn as_signed16(h: u64) -> int {
    if h >= 0x8000 {
        h - 0x10000
    } else {
        h as int
    }
}

/// The digit the streaming layer extracts for limb `i`, column `j`: the
/// recoding chain digit when reading raw scalars (limb 0), the stored
/// half-word reinterpreted as signed otherwise.
pub open spec fn extracted_digit(s: Scalar, i: int, j: int) -> int {
    if i == 0 {
        digit_at(s, j)
    } else {
        as_signed16(half16(s@[i], j))
    }
}

/// Every digit of the chain lies in `[-2^15, 2^15 - 1]`.
pub proof fn lemma_digit_in_range(s: Scalar, p: int)
    ensures
        -0x8000 <= digit_at(s, p) < 0x8000,
{
    let h = scalar_half(s, p);
    assert(h <= 0xffff) by {
        let l = s@[p / 4];
        assert(l & 0xffff <= 0xffff && (l >> 16) & 0xffff <= 0xffff && (l >> 32) & 0xffff <= 0xffff
            && (l >> 48) & 0xffff <= 0xffff) by (bit_vector);
    }
    assert(carry_at(s, p) <= 1);
}

proof fn lemma_halves_recompose(l: u64)
    ensures
        (l & 0xffff) + ((l >> 16) & 0xffff) * 0x1_0000 + ((l >> 32) & 0xffff) * 0x1_0000_0000 + ((l
            >> 48) & 0xffff) * 0x1_0000_0000_0000 == l,
{
    assert((l & 0xffff) + ((l >> 16) & 0xffff) * 0x1_0000 + ((l >> 32) & 0xffff) * 0x1_0000_0000 + (
    (l >> 48) & 0xffff) * 0x1_0000_0000_0000 == l) by (bit_vector);
}

/// One limb, scaled to its position: the four half-words of limb `i` carry the
/// weights of positions `4*i .. 4*i + 4`.
proof fn lemma_scaled_recompose(l: u64, i: int)
    requires
        0 <= i < 4,
    ensures
        l * w16(4 * i) == (l & 0xffff) * w16(4 * i) + ((l >> 16) & 0xffff) * w16(4 * i + 1) + ((l
            >> 32) & 0xffff) * w16(4 * i + 2) + ((l >> 48) & 0xffff) * w16(4 * i + 3),
{
    lemma_halves_recompose(l);
    assert(w16(4 * i + 1) == 0x1_0000 * w16(4 * i) && w16(4 * i + 2) == 0x1_0000_0000 * w16(4 * i)
        && w16(4 * i + 3) == 0x1_0000_0000_0000 * w16(4 * i));
    assert(l * w16(4 * i) == (l & 0xffff) * w16(4 * i) + ((l >> 16) & 0xffff) * (0x1_0000 * w16(4
        * i)) + ((l >> 32) & 0xffff) * (0x1_0000_0000 * w16(4 * i)) + ((l >> 48) & 0xffff) * (
    0x1_0000_0000_0000 * w16(4 * i))) by (nonlinear_arith)
        requires
            (l & 0xffff) + ((l >> 16) & 0xffff) * 0x1_0000 + ((l >> 32) & 0xffff) * 0x1_0000_0000
                + ((l >> 48) & 0xffff) * 0x1_0000_0000_0000 == l,
    ;
}

/// The raw half-words, recomposed with their weights, give back the scalar.
proof fn lemma_halves_value_is_scalar_value(s: Scalar)
    ensures
        halves_value(s, 16) == scalar_value(s),
{
    lemma_scaled_recompose(s@[0], 0);
    lemma_scaled_recompose(s@[1], 1);
    lemma_scaled_recompose(s@[2], 2);
    lemma_scaled_recompose(s@[3], 3);
    reveal_with_fuel(halves_value, 17);
    assert(halves_value(s, 16) == s@[0] * w16(0) + s@[1] * w16(4) + s@[2] * w16(8) + s@[3] * w16(
        12,
    ));
}

/// Prefix version of the recoding identity: the digits below `k` represent the
/// half-words below `k`, up to the pending carry.
proof fn lemma_digits_value_prefix(s: Scalar, k: int)
    requires
        0 <= k <= 16,
    ensures
        digits_value(s, k) == halves_value(s, k) - carry_at(s, k) * w16(k),
    decreases k,
{
    if k == 0 {
    } else {
        lemma_digits_value_prefix(s, k - 1);
        let h = scalar_half(s, k - 1);
        let c = carry_at(s, k - 1);
        let w = w16(k - 1);
        assert(w16(k) == 0x10000 * w);
        assert(digit_at(s, k - 1) == h + c - carry_at(s, k) * 0x10000);
        assert((h + c - carry_at(s, k) * 0x10000) * w == h * w + c * w - carry_at(s, k) * (0x10000
            * w)) by (nonlinear_arith);
    }
}

/// Recoder bit-exactness: the sixteen chain digits, weighted by `2^(16*p)`,
/// recompose the scalar exactly, provided the chain ends without a final
/// carry; and every digit lies in `[-2^15, 2^15 - 1]`.
pub proof fn lemma_recode_exact(s: Scalar)
    requires
        carry_at(s, 16) == 0,
    ensures
        digits_value(s, 16) == scalar_value(s),
        forall|p: int| -0x8000 <= #[trigger] digit_at(s, p) < 0x8000,
{
    lemma_digits_value_prefix(s, 16);
    lemma_halves_value_is_scalar_value(s);
    assert forall|p: int| -0x8000 <= #[trigger] digit_at(s, p) < 0x8000 by {
        lemma_digit_in_range(s, p);
    }
}

/// All four half-words of a limb fit in 16 bits.
proof fn lemma_halves_bounded(l: u64)
    ensures
        l & 0xffff <= 0xffff,
        (l >> 16) & 0xffff <= 0xffff,
        (l >> 32) & 0xffff <= 0xffff,
        (l >> 48) & 0xffff <= 0xffff,
{
    assert(l & 0xffff <= 0xffff && (l >> 16) & 0xffff <= 0xffff && (l >> 32) & 0xffff <= 0xffff && (
    l >> 48) & 0xffff <= 0xffff) by (bit_vector);
}

/// Packing four 16-bit patterns and reading one back returns it unchanged.
proof fn lemma_pack_unpack(b0: u64, b1: u64, b2: u64, b3: u64)
    requires
        b0 <= 0xffff,
        b1 <= 0xffff,
        b2 <= 0xffff,
        b3 <= 0xffff,
    ensures
        half16(b0 | (b1 << 16) | (b2 << 32) | (b3 << 48), 0) == b0,
        half16(b0 | (b1 << 16) | (b2 << 32) | (b3 << 48), 1) == b1,
        half16(b0 | (b1 << 16) | (b2 << 32) | (b3 << 48), 2) == b2,
        half16(b0 | (b1 << 16) | (b2 << 32) | (b3 << 48), 3) == b3,
{
    let l = b0 | (b1 << 16) | (b2 << 32) | (b3 << 48);
    assert(l & 0xffff == b0 && (l >> 16) & 0xffff == b1 && (l >> 32) & 0xffff == b2 && (l >> 48)
        & 0xffff == b3) by (bit_vector)
        requires
            l == b0 | (b1 << 16) | (b2 << 32) | (b3 << 48),
            b0 <= 0xffff,
            b1 <= 0xffff,
            b2 <= 0xffff,
            b3 <= 0xffff,
    ;
}

/// The stored two's-complement pattern of a digit, read back as signed, is the
/// digit itself.
proof fn lemma_digit_bits_signed(s: Scalar, p: int)
    ensures
        as_signed16(digit_bits(s, p)) == digit_at(s, p),
        digit_bits(s, p) <= 0xffff,
{
    lemma_digit_in_range(s, p);
    let h = scalar_half(s, p);
    assert(h <= 0xffff) by {
        lemma_halves_bounded(s@[p / 4]);
    }
    let c = carry_at(s, p);
    let t = (h + c) as u64;
    assert(t < 0x10000 ==> t & 0xffff == t) by (bit_vector);
    assert(0x10000u64 & 0xffff == 0) by (bit_vector);
    assert(t & 0xffff <= 0xffff) by (bit_vector);
}

/// Reading half-word `j` of recoded limb `i` yields the chain digit of global
/// position `4*i + j`, as a signed value.
pub proof fn lemma_recoded_digit(s: Scalar, i: int, j: int)
    requires
        0 <= i < 4,
        0 <= j < 4,
    ensures
        as_signed16(half16(recoded_scalar(s)@[i], j)) == digit_at(s, 4 * i + j),
{
    lemma_digit_bits_signed(s, 4 * i);
    lemma_digit_bits_signed(s, 4 * i + 1);
    lemma_digit_bits_signed(s, 4 * i + 2);
    lemma_digit_bits_signed(s, 4 * i + 3);
    lemma_pack_unpack(
        digit_bits(s, 4 * i),
        digit_bits(s, 4 * i + 1),
        digit_bits(s, 4 * i + 2),
        digit_bits(s, 4 * i + 3),
    );
    lemma_digit_bits_signed(s, 4 * i + j);
}

/// Every digit the streaming layer extracts fits a signed 16-bit value.
pub proof fn lemma_extracted_digit_in_range(s: Scalar, i: int, j: int)
    ensures
        -0x8000 <= extracted_digit(s, i, j) < 0x8000,
{
    if i == 0 {
        lemma_digit_in_range(s, j);
    } else {
        lemma_halves_bounded(s@[i]);
    }
}

/// Recoder bit-exactness. For every scalar whose recoding chain ends without
/// a final carry (every scalar below `2^253` does, per
/// `lemma_small_scalar_recodes`): the digits the streaming layer extracts -
/// limb 0's chain digits read from the raw scalar, and limbs 1 to 3 read as
/// signed half-words from the recoded image that `limb_carries` stores -
/// are the sixteen chain digits; each lies in `[-2^15, 2^15 - 1]`; and
/// weighted by `2^(64*i + 16*j)` they recompose the scalar exactly.
pub proof fn lemma_recoder_bit_exact(s: Scalar)
    requires
        carry_at(s, 16) == 0,
    ensures
        forall|j: int| 0 <= j < 4 ==> #[trigger] extracted_digit(s, 0, j) == digit_at(s, j),
        forall|i: int, j: int|
            1 <= i < 4 && 0 <= j < 4 ==> #[trigger] extracted_digit(recoded_scalar(s), i, j)
                == digit_at(s, 4 * i + j),
        forall|p: int| -0x8000 <= #[trigger] digit_at(s, p) < 0x8000,
        digits_value(s, 16) == scalar_value(s),
{
    lemma_recode_exact(s);
    assert forall|i: int, j: int| 1 <= i < 4 && 0 <= j < 4 implies #[trigger] extracted_digit(
        recoded_scalar(s),
        i,
        j,
    ) == digit_at(s, 4 * i + j) by {
        lemma_recoded_digit(s, i, j);
    }
}

/// Scalars below `2^253` (so in particular everything reduced modulo the
/// 253-bit subgroup order) end the recoding chain without a final carry.
pub proof fn lemma_small_scalar_recodes(s: Scalar)
    requires
        scalar_value(s) < pow2(253),
    ensures
        carry_at(s, 16) == 0,
{
    lemma_w16_is_pow2(4);
    lemma_w16_is_pow2(8);
    lemma_w16_is_pow2(12);
    lemma2_to64();
    lemma2_to64_rest();
    lemma_pow2_adds(240, 13);
    lemma_pow2_adds(240, 16);
    lemma_pow2_adds(192, 48);
    assert(s@[3] < 0x2000_0000_0000_0000) by (nonlinear_arith)
        requires
            s@[0] + s@[1] * w16(4) + s@[2] * w16(8) + s@[3] * w16(12) < pow2(253),
            w16(4) == 0x1_0000_0000_0000_0000int,
            w16(8) == 0x1_0000_0000_0000_0000_0000_0000_0000_0000int,
            w16(12) == 0x1_0000_0000_0000_0000_0000_0000_0000_0000_0000_0000_0000_0000int,
            pow2(253) == 0x2000_0000_0000_0000_0000_0000_0000_0000_0000_0000_0000_0000_0000_0000_0000_0000int,
            s@[0] >= 0,
            s@[1] >= 0,
            s@[2] >= 0,
    ;
    let l = s@[3];
    assert(l < 0x2000_0000_0000_0000 ==> (l >> 48) & 0xffff < 0x7fff) by (bit_vector);
    assert(scalar_half(s, 15) == (s@[3] >> 48) & 0xffff);
    assert(carry_at(s, 15) <= 1);
    assert(carry_at(s, 16) == 0);
}

/// Recode the four half-words of one limb. `base` is the limb's first global
/// half-word position; `c` must be the carry entering it.
fn recode_limb(s: Ghost<Scalar>, base: Ghost<int>, l: u64, c: u64) -> (r: (u64, u64))
    requires
        0 <= base@ <= 12,
        base@ % 4 == 0,
        l == s@@[base@ / 4],
        c == carry_at(s@, base@),
    ensures
        r.0 == recoded_limb(s@, base@ / 4),
        r.1 == carry_at(s@, base@ + 4),
{
    proof {
        lemma_halves_bounded(l);
    }
    let h0 = l & 0xffff;
    let t0 = h0 + c;
    let c1: u64 = if t0 >= 0x8000 {
        1
    } else {
        0
    };
    let h1 = (l >> 16) & 0xffff;
    let t1 = h1 + c1;
    let c2: u64 = if t1 >= 0x8000 {
        1
    } else {
        0
    };
    let h2 = (l >> 32) & 0xffff;
    let t2 = h2 + c2;
    let c3: u64 = if t2 >= 0x8000 {
        1
    } else {
        0
    };
    let h3 = (l >> 48) & 0xffff;
    let t3 = h3 + c3;
    let c4: u64 = if t3 >= 0x8000 {
        1
    } else {
        0
    };
    proof {
        assert(h0 == scalar_half(s@, base@) && h1 == scalar_half(s@, base@ + 1) && h2
            == scalar_half(s@, base@ + 2) && h3 == scalar_half(s@, base@ + 3));
        assert(c1 == carry_at(s@, base@ + 1));
        assert(c2 == carry_at(s@, base@ + 2));
        assert(c3 == carry_at(s@, base@ + 3));
        assert(c4 == carry_at(s@, base@ + 4));
    }
    let packed = (t0 & 0xffff) | ((t1 & 0xffff) << 16) | ((t2 & 0xffff) << 32) | ((t3 & 0xffff)
        << 48);
    proof {
        assert(t0 & 0xffff == digit_bits(s@, base@) && t1 & 0xffff == digit_bits(s@, base@ + 1) && t2
            & 0xffff == digit_bits(s@, base@ + 2) && t3 & 0xffff == digit_bits(s@, base@ + 3));
        assert(recoded_limb(s@, base@ / 4) == packed);
    }
    (packed, c4)
}

/// Recode one scalar into its packed signed-digit image.
fn recode_one(s: &Scalar) -> (out: Scalar)
    ensures
        out == recoded_scalar(*s),
{
    let (p0, c) = recode_limb(Ghost(*s), Ghost(0), s[0], 0);
    let (p1, c) = recode_limb(Ghost(*s), Ghost(4), s[1], c);
    let (p2, c) = recode_limb(Ghost(*s), Ghost(8), s[2], c);
    let (p3, _c) = recode_limb(Ghost(*s), Ghost(12), s[3], c);
    let out = [p0, p1, p2, p3];
    proof {
        assert(out =~= recoded_scalar(*s));
    }
    out
}

/// Recode every scalar of the input into the carry output array. Entry `k` of
/// the output packs, limb by limb, the two's-complement patterns of the
/// sixteen chain digits of `scalars[k]`.
pub fn limb_carries(scalars: &[Scalar], carried: &mut Vec<Scalar>)
    requires
        old(carried)@.len() == scalars@.len(),
    ensures
        final(carried)@.len() == scalars@.len(),
        forall|k: int| 0 <= k < scalars@.len() ==> final(carried)@[k] == recoded_scalar(
            scalars@[k],
        ),
{
    let n = scalars.len();
    let mut idx: usize = 0;
    while idx < n
        invariant
            n == scalars@.len(),
            carried@.len() == n,
            idx <= n,
            forall|k: int| 0 <= k < idx ==> carried@[k] == recoded_scalar(scalars@[k]),
        decreases n - idx,
    {
        carried[idx] = recode_one(&scalars[idx]);
        idx += 1;
    }
}

/// The digit for limb `i`, column `j` of one scalar. Reading raw scalars
/// (limb 0, where no carry can have entered yet) this runs the recoding chain
/// of the low limb; reading the carry output it returns the stored half-word
/// as a signed value.
pub fn single_digit_carry(scalar: &Scalar, i: usize, j: usize) -> (d: Digit)
    requires
        i < 4,
        j < 4,
    ensures
        d as int == extracted_digit(*scalar, i as int, j as int),
{
    let l = scalar[i];
    proof {
        lemma_halves_bounded(l);
    }
    let h: u64 = if i == 0 {
        let h0 = l & 0xffff;
        let t0 = h0;
        let c1: u64 = if t0 >= 0x8000 {
            1
        } else {
            0
        };
        let h1 = (l >> 16) & 0xffff;
        let t1 = h1 + c1;
        let c2: u64 = if t1 >= 0x8000 {
            1
        } else {
            0
        };
        let h2 = (l >> 32) & 0xffff;
        let t2 = h2 + c2;
        let c3: u64 = if t2 >= 0x8000 {
            1
        } else {
            0
        };
        let h3 = (l >> 48) & 0xffff;
        let t3 = h3 + c3;
        proof {
            assert(carry_at(*scalar, 0) == 0);
            assert(t0 == scalar_half(*scalar, 0) + carry_at(*scalar, 0));
            assert(t1 == scalar_half(*scalar, 1) + carry_at(*scalar, 1));
            assert(t2 == scalar_half(*scalar, 2) + carry_at(*scalar, 2));
            assert(t3 == scalar_half(*scalar, 3) + carry_at(*scalar, 3));
        }
        if j == 0 {
            t0
        } else if j == 1 {
            t1
        } else if j == 2 {
            t2
        } else {
            t3
        }
    } else {
        if j == 0 {
            l & 0xffff
        } else if j == 1 {
            (l >> 16) & 0xffff
        } else if j == 2 {
            (l >> 32) & 0xffff
        } else {
            (l >> 48) & 0xffff
        }
    };
    if h >= 0x8000 {
        let v = h as i32 - 0x10000;
        proof {
            assert(h <= 0x10000);
        }
        v as i16
    } else {
        h as i16
    }
}

} // verus!
