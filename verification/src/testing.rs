//! Deterministic test-instance generators: digit and scalar patterns whose
//! columns hit pairwise distinct buckets.

use crate::digits::{Digit, Scalar};
use vstd::prelude::*;

verus! {

/// The limb pattern of entry `k` of a conflict-free scalar instance: the
/// value `k mod 1024` repeated in all four 16-bit halves.
pub open spec fn noconflict_limb_s(k: int) -> u64 {
    (((k % 1024) as u64) << 48) | (((k % 1024) as u64) << 32) | (((k % 1024) as u64) << 16) | ((k
        % 1024) as u64)
}

/// `2^size` digits cycling through `0 .. 1024`: distinct entries land in
/// distinct buckets of one column.
pub fn noconflict_digits(size: u8) -> (r: Vec<Digit>)
    requires
        size <= 27,
    ensures
        r@.len() == (1usize << size),
        forall|k: int| 0 <= k < r@.len() ==> #[trigger] r@[k] == (k % 1024) as i16,
{
    let n: usize = 1usize << size;
    let mut r: Vec<Digit> = Vec::new();
    let mut k: usize = 0;
    while k < n
        invariant
            k <= n,
            r@.len() == k,
            forall|q: int| 0 <= q < k ==> #[trigger] r@[q] == (q % 1024) as i16,
        decreases n - k,
    {
        r.push((k % 1024) as i16);
        k += 1;
    }
    r
}

/// Same cycle of digits under the older name.
pub fn noconflict_column16(size: u8) -> (r: Vec<Digit>)
    requires
        size <= 27,
    ensures
        r@.len() == (1usize << size),
        forall|k: int| 0 <= k < r@.len() ==> #[trigger] r@[k] == (k % 1024) as i16,
{
    noconflict_digits(size)
}

/// `2^size` scalars whose every 16-bit half of every limb is the entry's
/// index modulo 1024: each column is conflict-free.
pub fn noconflict_scalars(size: u8) -> (r: Vec<Scalar>)
    requires
        size <= 27,
    ensures
        r@.len() == (1usize << size),
        forall|k: int|
            0 <= k < r@.len() ==> #[trigger] r@[k] == [
                noconflict_limb_s(k),
                noconflict_limb_s(k),
                noconflict_limb_s(k),
                noconflict_limb_s(k),
            ],
{
    let n: usize = 1usize << size;
    let mut r: Vec<Scalar> = Vec::new();
    let mut k: usize = 0;
    while k < n
        invariant
            k <= n,
            r@.len() == k,
            forall|q: int|
                0 <= q < k ==> #[trigger] r@[q] == [
                    noconflict_limb_s(q),
                    noconflict_limb_s(q),
                    noconflict_limb_s(q),
                    noconflict_limb_s(q),
                ],
        decreases n - k,
    {
        let v: u64 = (k % 1024) as u64;
        let limb: u64 = (v << 48) | (v << 32) | (v << 16) | v;
        r.push([limb, limb, limb, limb]);
        proof {
            assert(r@[k as int] =~= [
                noconflict_limb_s(k as int),
                noconflict_limb_s(k as int),
                noconflict_limb_s(k as int),
                noconflict_limb_s(k as int),
            ]);
        }
        k += 1;
    }
    r
}

/// `2^size` all-zero scalars.
pub fn zero_scalars(size: u8) -> (r: Vec<Scalar>)
    requires
        size <= 27,
    ensures
        r@.len() == (1usize << size),
        forall|k: int| 0 <= k < r@.len() ==> #[trigger] r@[k] == [0u64, 0u64, 0u64, 0u64],
{
    let n: usize = 1usize << size;
    let mut r: Vec<Scalar> = Vec::new();
    let mut k: usize = 0;
    while k < n
        invariant
            k <= n,
            r@.len() == k,
            forall|q: int| 0 <= q < k ==> #[trigger] r@[q] == [0u64, 0u64, 0u64, 0u64],
        decreases n - k,
    {
        r.push([0u64, 0u64, 0u64, 0u64]);
        k += 1;
    }
    r
}

} // verus!
