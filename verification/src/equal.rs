//! Constant-time equality of integers, of integer arrays and of byte slices.
use vstd::prelude::*;

use crate::mask::{bool_mask, Mask};

verus! {

/// Trait for items whose equality to another item may be tested in constant time.
pub trait Equal {
    /// Determine if two items are equal in constant time.
    ///
    /// # Returns
    ///
    /// `1u8` if the two items are equal, and `0u8` otherwise.
    fn ct_eq(&self, other: &Self) -> (r: Mask) where Self: Sized
        ensures
            r@ == bool_mask(*self == *other),
    ;
}

// The word `!(a ^ b)` has every bit set exactly when `a == b`; folding it
// onto itself with halving shifts leaves the AND of all its bits in bit 0
// and clears every other bit.

/// The word after the fold steps of `ct_eq` for `u8` that come before the
/// step with shift `shift`; with shift `0` the fold is complete.
pub open spec fn fold_u8(x: u8, shift: u8) -> u8 {
    let x4 = x & (x >> 4u8);
    let x2 = x4 & (x4 >> 2u8);
    let x1 = x2 & (x2 >> 1u8);
    if shift == 4 {
        x
    } else if shift == 2 {
        x4
    } else if shift == 1 {
        x2
    } else {
        x1
    }
}

proof fn lemma_fold_u8(a: u8, b: u8)
    by (bit_vector)
    ensures
        fold_u8(!(a ^ b), 0u8) == (if a == b { 1u8 } else { 0u8 }),
{
}

impl Equal for u8 {
    fn ct_eq(&self, other: &u8) -> (r: Mask) {
        let mut x: u8 = !(*self ^ *other);
        let mut shift: u8 = 4u8;
        let ghost x0 = x;
        while shift >= 1
            invariant
                shift == 4 || shift == 2 || shift == 1 || shift == 0,
                x == fold_u8(x0, shift),
            decreases shift,
        {
            x &= x >> shift;
            shift /= 2;
        }
        proof {
            lemma_fold_u8(*self, *other);
        }
        Mask::from(x)
    }
}

/// The word after the fold steps of `ct_eq` for `u16` that come before the
/// step with shift `shift`; with shift `0` the fold is complete.
pub open spec fn fold_u16(x: u16, shift: u16) -> u16 {
    let x8 = x & (x >> 8u16);
    let x4 = x8 & (x8 >> 4u16);
    let x2 = x4 & (x4 >> 2u16);
    let x1 = x2 & (x2 >> 1u16);
    if shift == 8 {
        x
    } else if shift == 4 {
        x8
    } else if shift == 2 {
        x4
    } else if shift == 1 {
        x2
    } else {
        x1
    }
}

proof fn lemma_fold_u16(a: u16, b: u16)
    by (bit_vector)
    ensures
        fold_u16(!(a ^ b), 0u16) as u8 == (if a == b { 1u8 } else { 0u8 }),
{
}

impl Equal for u16 {
    fn ct_eq(&self, other: &u16) -> (r: Mask) {
        let mut x: u16 = !(*self ^ *other);
        let mut shift: u16 = 8u16;
        let ghost x0 = x;
        while shift >= 1
            invariant
                shift == 8 || shift == 4 || shift == 2 || shift == 1 || shift == 0,
                x == fold_u16(x0, shift),
            decreases shift,
        {
            x &= x >> shift;
            shift /= 2;
        }
        proof {
            lemma_fold_u16(*self, *other);
        }
        Mask::from(x as u8)
    }
}

/// The word after the fold steps of `ct_eq` for `u32` that come before the
/// step with shift `shift`; with shift `0` the fold is complete.
pub open spec fn fold_u32(x: u32, shift: u32) -> u32 {
    let x16 = x & (x >> 16u32);
    let x8 = x16 & (x16 >> 8u32);
    let x4 = x8 & (x8 >> 4u32);
    let x2 = x4 & (x4 >> 2u32);
    let x1 = x2 & (x2 >> 1u32);
    if shift == 16 {
        x
    } else if shift == 8 {
        x16
    } else if shift == 4 {
        x8
    } else if shift == 2 {
        x4
    } else if shift == 1 {
        x2
    } else {
        x1
    }
}

proof fn lemma_fold_u32(a: u32, b: u32)
    by (bit_vector)
    ensures
        fold_u32(!(a ^ b), 0u32) as u8 == (if a == b { 1u8 } else { 0u8 }),
{
}

impl Equal for u32 {
    fn ct_eq(&self, other: &u32) -> (r: Mask) {
        let mut x: u32 = !(*self ^ *other);
        let mut shift: u32 = 16u32;
        let ghost x0 = x;
        while shift >= 1
            invariant
                shift == 16 || shift == 8 || shift == 4 || shift == 2 || shift == 1 || shift == 0,
                x == fold_u32(x0, shift),
            decreases shift,
        {
            x &= x >> shift;
            shift /= 2;
        }
        proof {
            lemma_fold_u32(*self, *other);
        }
        Mask::from(x as u8)
    }
}

/// The word after the fold steps of `ct_eq` for `u64` that come before the
/// step with shift `shift`; with shift `0` the fold is complete.
pub open spec fn fold_u64(x: u64, shift: u64) -> u64 {
    let x32 = x & (x >> 32u64);
    let x16 = x32 & (x32 >> 16u64);
    let x8 = x16 & (x16 >> 8u64);
    let x4 = x8 & (x8 >> 4u64);
    let x2 = x4 & (x4 >> 2u64);
    let x1 = x2 & (x2 >> 1u64);
    if shift == 32 {
        x
    } else if shift == 16 {
        x32
    } else if shift == 8 {
        x16
    } else if shift == 4 {
        x8
    } else if shift == 2 {
        x4
    } else if shift == 1 {
        x2
    } else {
        x1
    }
}

proof fn lemma_fold_u64(a: u64, b: u64)
    by (bit_vector)
    ensures
        fold_u64(!(a ^ b), 0u64) as u8 == (if a == b { 1u8 } else { 0u8 }),
{
}

impl Equal for u64 {
    fn ct_eq(&self, other: &u64) -> (r: Mask) {
        let mut x: u64 = !(*self ^ *other);
        let mut shift: u64 = 32u64;
        let ghost x0 = x;
        while shift >= 1
            invariant
                shift == 32 || shift == 16 || shift == 8 || shift == 4 || shift == 2 || shift == 1 || shift == 0,
                x == fold_u64(x0, shift),
            decreases shift,
        {
            x &= x >> shift;
            shift /= 2;
        }
        proof {
            lemma_fold_u64(*self, *other);
        }
        Mask::from(x as u8)
    }
}

/// The word after the fold steps of `ct_eq` for `u128` that come before the
/// step with shift `shift`; with shift `0` the fold is complete.
pub open spec fn fold_u128(x: u128, shift: u128) -> u128 {
    let x64 = x & (x >> 64u128);
    let x32 = x64 & (x64 >> 32u128);
    let x16 = x32 & (x32 >> 16u128);
    let x8 = x16 & (x16 >> 8u128);
    let x4 = x8 & (x8 >> 4u128);
    let x2 = x4 & (x4 >> 2u128);
    let x1 = x2 & (x2 >> 1u128);
    if shift == 64 {
        x
    } else if shift == 32 {
        x64
    } else if shift == 16 {
        x32
    } else if shift == 8 {
        x16
    } else if shift == 4 {
        x8
    } else if shift == 2 {
        x4
    } else if shift == 1 {
        x2
    } else {
        x1
    }
}

proof fn lemma_fold_u128(a: u128, b: u128)
    by (bit_vector)
    ensures
        fold_u128(!(a ^ b), 0u128) as u8 == (if a == b { 1u8 } else { 0u8 }),
{
}

impl Equal for u128 {
    fn ct_eq(&self, other: &u128) -> (r: Mask) {
        let mut x: u128 = !(*self ^ *other);
        let mut shift: u128 = 64u128;
        let ghost x0 = x;
        while shift >= 1
            invariant
                shift == 64 || shift == 32 || shift == 16 || shift == 8 || shift == 4 || shift == 2 || shift == 1 || shift == 0,
                x == fold_u128(x0, shift),
            decreases shift,
        {
            x &= x >> shift;
            shift /= 2;
        }
        proof {
            lemma_fold_u128(*self, *other);
        }
        Mask::from(x as u8)
    }
}

/// OR-ing the difference of two words into an accumulator keeps it zero
/// exactly while every pair seen so far was equal.
proof fn lemma_accumulate_u8(acc: u8, a: u8, b: u8)
    by (bit_vector)
    ensures
        (acc | (a ^ b)) == 0 <==> (acc == 0 && a == b),
{
}

proof fn lemma_accumulate_u16(acc: u16, a: u16, b: u16)
    by (bit_vector)
    ensures
        (acc | (a ^ b)) == 0 <==> (acc == 0 && a == b),
{
}

proof fn lemma_accumulate_u32(acc: u32, a: u32, b: u32)
    by (bit_vector)
    ensures
        (acc | (a ^ b)) == 0 <==> (acc == 0 && a == b),
{
}

proof fn lemma_accumulate_u64(acc: u64, a: u64, b: u64)
    by (bit_vector)
    ensures
        (acc | (a ^ b)) == 0 <==> (acc == 0 && a == b),
{
}

proof fn lemma_accumulate_u128(acc: u128, a: u128, b: u128)
    by (bit_vector)
    ensures
        (acc | (a ^ b)) == 0 <==> (acc == 0 && a == b),
{
}

impl<const N: usize> Equal for [u8; N] {
    fn ct_eq(&self, other: &[u8; N]) -> (r: Mask) {
        let mut x: u8 = 0;
        for i in 0..N
            invariant
                x == 0 <==> forall|j: int| 0 <= j < i ==> self@[j] == other@[j],
        {
            proof {
                lemma_accumulate_u8(x, self@[i as int], other@[i as int]);
            }
            x |= self[i] ^ other[i];
        }
        proof {
            broadcast use vstd::array::axiom_array_ext_equal;
            if x == 0 {
                assert(*self =~= *other);
            }
        }
        x.ct_eq(&0)
    }
}

impl<const N: usize> Equal for [u16; N] {
    fn ct_eq(&self, other: &[u16; N]) -> (r: Mask) {
        let mut x: u16 = 0;
        for i in 0..N
            invariant
                x == 0 <==> forall|j: int| 0 <= j < i ==> self@[j] == other@[j],
        {
            proof {
                lemma_accumulate_u16(x, self@[i as int], other@[i as int]);
            }
            x |= self[i] ^ other[i];
        }
        proof {
            broadcast use vstd::array::axiom_array_ext_equal;
            if x == 0 {
                assert(*self =~= *other);
            }
        }
        x.ct_eq(&0)
    }
}

impl<const N: usize> Equal for [u32; N] {
    fn ct_eq(&self, other: &[u32; N]) -> (r: Mask) {
        let mut x: u32 = 0;
        for i in 0..N
            invariant
                x == 0 <==> forall|j: int| 0 <= j < i ==> self@[j] == other@[j],
        {
            proof {
                lemma_accumulate_u32(x, self@[i as int], other@[i as int]);
            }
            x |= self[i] ^ other[i];
        }
        proof {
            broadcast use vstd::array::axiom_array_ext_equal;
            if x == 0 {
                assert(*self =~= *other);
            }
        }
        x.ct_eq(&0)
    }
}

impl<const N: usize> Equal for [u64; N] {
    fn ct_eq(&self, other: &[u64; N]) -> (r: Mask) {
        let mut x: u64 = 0;
        for i in 0..N
            invariant
                x == 0 <==> forall|j: int| 0 <= j < i ==> self@[j] == other@[j],
        {
            proof {
                lemma_accumulate_u64(x, self@[i as int], other@[i as int]);
            }
            x |= self[i] ^ other[i];
        }
        proof {
            broadcast use vstd::array::axiom_array_ext_equal;
            if x == 0 {
                assert(*self =~= *other);
            }
        }
        x.ct_eq(&0)
    }
}

impl<const N: usize> Equal for [u128; N] {
    fn ct_eq(&self, other: &[u128; N]) -> (r: Mask) {
        let mut x: u128 = 0;
        for i in 0..N
            invariant
                x == 0 <==> forall|j: int| 0 <= j < i ==> self@[j] == other@[j],
        {
            proof {
                lemma_accumulate_u128(x, self@[i as int], other@[i as int]);
            }
            x |= self[i] ^ other[i];
        }
        proof {
            broadcast use vstd::array::axiom_array_ext_equal;
            if x == 0 {
                assert(*self =~= *other);
            }
        }
        x.ct_eq(&0)
    }
}

/// Check equality of two bytes in constant time.
///
/// Returns `1u8` if `a == b` and `0u8` otherwise.
pub fn bytes_equal(a: u8, b: u8) -> (r: Mask)
    ensures
        r@ == bool_mask(a == b),
{
    a.ct_eq(&b)
}

/// Test if a byte is non-zero in constant time.
///
/// * If `b != 0`, returns `1u8`.
/// * If `b == 0`, returns `0u8`.
pub fn byte_is_nonzero(b: u8) -> (r: Mask)
    ensures
        r@ == bool_mask(b != 0),
{
    let mut x = b;
    x |= x >> 4;
    let ghost x4 = x;
    x |= x >> 2;
    let ghost x2 = x;
    x |= x >> 1;
    proof {
        // Each step ORs higher bits down, so bit 0 ends up as the OR of all eight bits.
        assert(x & 1 == (if b != 0 { 1u8 } else { 0u8 })) by (bit_vector)
            requires
                x4 == b | (b >> 4u8),
                x2 == x4 | (x4 >> 2u8),
                x == x2 | (x2 >> 1u8),
        ;
    }
    Mask::from(x & 1)
}

/// Check equality of two slices, `a` and `b`, in constant time.
///
/// The two slices must be of equal length.  Returns `1u8` if `a == b` and
/// `0u8` otherwise.
pub fn slices_equal(a: &[u8], b: &[u8]) -> (r: Mask)
    requires
        a@.len() == b@.len(),
    ensures
        r@ == bool_mask(a@ == b@),
{
    let mut x: u8 = 0;
    let len = a.len();
    for i in 0..len
        invariant
            len == a@.len(),
            a@.len() == b@.len(),
            x == 0 <==> forall|j: int| 0 <= j < i ==> a@[j] == b@[j],
    {
        proof {
            lemma_accumulate_u8(x, a@[i as int], b@[i as int]);
        }
        x |= a[i] ^ b[i];
    }
    proof {
        if x == 0 {
            assert(a@ =~= b@);
        }
    }
    bytes_equal(x, 0)
}

/// Two byte arrays are equal exactly when their contents are equal, so
/// `ct_eq` on `[u8; N]` and `slices_equal` on the same bytes give the same
/// mask.
pub proof fn lemma_array_eq_agrees_with_slices<const N: usize>(a: [u8; N], b: [u8; N])
    ensures
        bool_mask(a == b) == bool_mask(a@ == b@),
{
    broadcast use vstd::array::axiom_array_ext_equal;

    if a@ == b@ {
        assert(a =~= b);
    }
}

} // verus!
