//! Constant-time conditional assignment and swapping of integers and
//! integer arrays.
use vstd::prelude::*;

use crate::mask::{chosen, is_choice, Mask};

verus! {

/// Trait for items which can be conditionally assigned in constant time.
pub trait ConditionallyAssignable {
    /// Conditionally assign `other` to `self` in constant time.
    ///
    /// If `choice == 1`, assign `other` to `self`.  If `choice == 0`, leave
    /// `self` unchanged.
    fn conditional_assign(&mut self, other: &Self, choice: Mask) where Self: Sized
        requires
            is_choice(choice@),
        ensures
            *final(self) == chosen(choice@, *other, *old(self)),
    ;
}

/// The mask `-(choice)` is all zeros for choice `0` and all ones for
/// choice `1`, so `s ^ (mask & (s ^ o))` is `s` or `o`.
proof fn lemma_masked_assign_u8(c: u8, s: u8, o: u8)
    by (bit_vector)
    requires
        c == 0 || c == 1,
    ensures
        s ^ ((-(c as i8)) as u8 & (s ^ o)) == (if c == 1 { o } else { s }),
{
}

impl ConditionallyAssignable for u8 {
    fn conditional_assign(&mut self, other: &u8, choice: Mask) {
        let c = choice.value();
        // if choice = 0, mask = (-0) = 00..00
        // if choice = 1, mask = (-1) = 11..11
        let mask = -(c as i8) as u8;
        proof {
            lemma_masked_assign_u8(c, *self, *other);
        }
        *self = *self ^ ((mask) & (*self ^ *other));
    }
}

/// The mask `-(choice)` is all zeros for choice `0` and all ones for
/// choice `1`, so `s ^ (mask & (s ^ o))` is `s` or `o`.
proof fn lemma_masked_assign_u16(c: u8, s: u16, o: u16)
    by (bit_vector)
    requires
        c == 0 || c == 1,
    ensures
        s ^ ((-(c as i16)) as u16 & (s ^ o)) == (if c == 1 { o } else { s }),
{
}

impl ConditionallyAssignable for u16 {
    fn conditional_assign(&mut self, other: &u16, choice: Mask) {
        let c = choice.value();
        // if choice = 0, mask = (-0) = 00..00
        // if choice = 1, mask = (-1) = 11..11
        let mask = -(c as i16) as u16;
        proof {
            lemma_masked_assign_u16(c, *self, *other);
        }
        *self = *self ^ ((mask) & (*self ^ *other));
    }
}

/// The mask `-(choice)` is all zeros for choice `0` and all ones for
/// choice `1`, so `s ^ (mask & (s ^ o))` is `s` or `o`.
proof fn lemma_masked_assign_u32(c: u8, s: u32, o: u32)
    by (bit_vector)
    requires
        c == 0 || c == 1,
    ensures
        s ^ ((-(c as i32)) as u32 & (s ^ o)) == (if c == 1 { o } else { s }),
{
}

impl ConditionallyAssignable for u32 {
    fn conditional_assign(&mut self, other: &u32, choice: Mask) {
        let c = choice.value();
        // if choice = 0, mask = (-0) = 00..00
        // if choice = 1, mask = (-1) = 11..11
        let mask = -(c as i32) as u32;
        proof {
            lemma_masked_assign_u32(c, *self, *other);
        }
        *self = *self ^ ((mask) & (*self ^ *other));
    }
}

/// The mask `-(choice)` is all zeros for choice `0` and all ones for
/// choice `1`, so `s ^ (mask & (s ^ o))` is `s` or `o`.
proof fn lemma_masked_assign_u64(c: u8, s: u64, o: u64)
    by (bit_vector)
    requires
        c == 0 || c == 1,
    ensures
        s ^ ((-(c as i64)) as u64 & (s ^ o)) == (if c == 1 { o } else { s }),
{
}

impl ConditionallyAssignable for u64 {
    fn conditional_assign(&mut self, other: &u64, choice: Mask) {
        let c = choice.value();
        // if choice = 0, mask = (-0) = 00..00
        // if choice = 1, mask = (-1) = 11..11
        let mask = -(c as i64) as u64;
        proof {
            lemma_masked_assign_u64(c, *self, *other);
        }
        *self = *self ^ ((mask) & (*self ^ *other));
    }
}

/// The mask `-(choice)` is all zeros for choice `0` and all ones for
/// choice `1`, so `s ^ (mask & (s ^ o))` is `s` or `o`.
proof fn lemma_masked_assign_u128(c: u8, s: u128, o: u128)
    by (bit_vector)
    requires
        c == 0 || c == 1,
    ensures
        s ^ ((-(c as i128)) as u128 & (s ^ o)) == (if c == 1 { o } else { s }),
{
}

impl ConditionallyAssignable for u128 {
    fn conditional_assign(&mut self, other: &u128, choice: Mask) {
        let c = choice.value();
        // if choice = 0, mask = (-0) = 00..00
        // if choice = 1, mask = (-1) = 11..11
        let mask = -(c as i128) as u128;
        proof {
            lemma_masked_assign_u128(c, *self, *other);
        }
        *self = *self ^ ((mask) & (*self ^ *other));
    }
}

/// The mask `-(choice)` is all zeros for choice `0` and all ones for
/// choice `1`, so `s ^ (mask & (s ^ o))` is `s` or `o`.
proof fn lemma_masked_assign_i8(c: u8, s: i8, o: i8)
    by (bit_vector)
    requires
        c == 0 || c == 1,
    ensures
        s ^ ((-(c as i8)) as i8 & (s ^ o)) == (if c == 1 { o } else { s }),
{
}

impl ConditionallyAssignable for i8 {
    fn conditional_assign(&mut self, other: &i8, choice: Mask) {
        let c = choice.value();
        // if choice = 0, mask = (-0) = 00..00
        // if choice = 1, mask = (-1) = 11..11
        let mask = -(c as i8) as i8;
        proof {
            lemma_masked_assign_i8(c, *self, *other);
        }
        *self = *self ^ ((mask) & (*self ^ *other));
    }
}

/// The mask `-(choice)` is all zeros for choice `0` and all ones for
/// choice `1`, so `s ^ (mask & (s ^ o))` is `s` or `o`.
proof fn lemma_masked_assign_i16(c: u8, s: i16, o: i16)
    by (bit_vector)
    requires
        c == 0 || c == 1,
    ensures
        s ^ ((-(c as i16)) as i16 & (s ^ o)) == (if c == 1 { o } else { s }),
{
}

impl ConditionallyAssignable for i16 {
    fn conditional_assign(&mut self, other: &i16, choice: Mask) {
        let c = choice.value();
        // if choice = 0, mask = (-0) = 00..00
        // if choice = 1, mask = (-1) = 11..11
        let mask = -(c as i16) as i16;
        proof {
            lemma_masked_assign_i16(c, *self, *other);
        }
        *self = *self ^ ((mask) & (*self ^ *other));
    }
}

/// The mask `-(choice)` is all zeros for choice `0` and all ones for
/// choice `1`, so `s ^ (mask & (s ^ o))` is `s` or `o`.
proof fn lemma_masked_assign_i32(c: u8, s: i32, o: i32)
    by (bit_vector)
    requires
        c == 0 || c == 1,
    ensures
        s ^ ((-(c as i32)) as i32 & (s ^ o)) == (if c == 1 { o } else { s }),
{
}

impl ConditionallyAssignable for i32 {
    fn conditional_assign(&mut self, other: &i32, choice: Mask) {
        let c = choice.value();
        // if choice = 0, mask = (-0) = 00..00
        // if choice = 1, mask = (-1) = 11..11
        let mask = -(c as i32) as i32;
        proof {
            lemma_masked_assign_i32(c, *self, *other);
        }
        *self = *self ^ ((mask) & (*self ^ *other));
    }
}

/// The mask `-(choice)` is all zeros for choice `0` and all ones for
/// choice `1`, so `s ^ (mask & (s ^ o))` is `s` or `o`.
proof fn lemma_masked_assign_i64(c: u8, s: i64, o: i64)
    by (bit_vector)
    requires
        c == 0 || c == 1,
    ensures
        s ^ ((-(c as i64)) as i64 & (s ^ o)) == (if c == 1 { o } else { s }),
{
}

impl ConditionallyAssignable for i64 {
    fn conditional_assign(&mut self, other: &i64, choice: Mask) {
        let c = choice.value();
        // if choice = 0, mask = (-0) = 00..00
        // if choice = 1, mask = (-1) = 11..11
        let mask = -(c as i64) as i64;
        proof {
            lemma_masked_assign_i64(c, *self, *other);
        }
        *self = *self ^ ((mask) & (*self ^ *other));
    }
}

/// The mask `-(choice)` is all zeros for choice `0` and all ones for
/// choice `1`, so `s ^ (mask & (s ^ o))` is `s` or `o`.
proof fn lemma_masked_assign_i128(c: u8, s: i128, o: i128)
    by (bit_vector)
    requires
        c == 0 || c == 1,
    ensures
        s ^ ((-(c as i128)) as i128 & (s ^ o)) == (if c == 1 { o } else { s }),
{
}

impl ConditionallyAssignable for i128 {
    fn conditional_assign(&mut self, other: &i128, choice: Mask) {
        let c = choice.value();
        // if choice = 0, mask = (-0) = 00..00
        // if choice = 1, mask = (-1) = 11..11
        let mask = -(c as i128) as i128;
        proof {
            lemma_masked_assign_i128(c, *self, *other);
        }
        *self = *self ^ ((mask) & (*self ^ *other));
    }
}

impl<const N: usize> ConditionallyAssignable for [u8; N] {
    fn conditional_assign(&mut self, other: &[u8; N], choice: Mask) {
        let c = choice.value();
        // if choice = 0, mask = (-0) = 00..00
        // if choice = 1, mask = (-1) = 11..11
        let mask = -(c as i8) as u8;
        for i in 0..N
            invariant
                c == choice@,
                is_choice(c),
                mask == -(c as i8) as u8,
                forall|j: int| 0 <= j < i ==> self@[j] == chosen(c, other@[j], old(self)@[j]),
                forall|j: int| i <= j < N ==> self@[j] == old(self)@[j],
        {
            proof {
                lemma_masked_assign_u8(c, self@[i as int], other@[i as int]);
            }
            self[i] = self[i] ^ (mask & (self[i] ^ other[i]));
        }
        proof {
            broadcast use vstd::array::axiom_array_ext_equal;
            if c == 1 {
                assert(*self =~= *other);
            } else {
                assert(*self =~= *old(self));
            }
        }
    }
}

impl<const N: usize> ConditionallyAssignable for [u16; N] {
    fn conditional_assign(&mut self, other: &[u16; N], choice: Mask) {
        let c = choice.value();
        // if choice = 0, mask = (-0) = 00..00
        // if choice = 1, mask = (-1) = 11..11
        let mask = -(c as i16) as u16;
        for i in 0..N
            invariant
                c == choice@,
                is_choice(c),
                mask == -(c as i16) as u16,
                forall|j: int| 0 <= j < i ==> self@[j] == chosen(c, other@[j], old(self)@[j]),
                forall|j: int| i <= j < N ==> self@[j] == old(self)@[j],
        {
            proof {
                lemma_masked_assign_u16(c, self@[i as int], other@[i as int]);
            }
            self[i] = self[i] ^ (mask & (self[i] ^ other[i]));
        }
        proof {
            broadcast use vstd::array::axiom_array_ext_equal;
            if c == 1 {
                assert(*self =~= *other);
            } else {
                assert(*self =~= *old(self));
            }
        }
    }
}

impl<const N: usize> ConditionallyAssignable for [u32; N] {
    fn conditional_assign(&mut self, other: &[u32; N], choice: Mask) {
        let c = choice.value();
        // if choice = 0, mask = (-0) = 00..00
        // if choice = 1, mask = (-1) = 11..11
        let mask = -(c as i32) as u32;
        for i in 0..N
            invariant
                c == choice@,
                is_choice(c),
                mask == -(c as i32) as u32,
                forall|j: int| 0 <= j < i ==> self@[j] == chosen(c, other@[j], old(self)@[j]),
                forall|j: int| i <= j < N ==> self@[j] == old(self)@[j],
        {
            proof {
                lemma_masked_assign_u32(c, self@[i as int], other@[i as int]);
            }
            self[i] = self[i] ^ (mask & (self[i] ^ other[i]));
        }
        proof {
            broadcast use vstd::array::axiom_array_ext_equal;
            if c == 1 {
                assert(*self =~= *other);
            } else {
                assert(*self =~= *old(self));
            }
        }
    }
}

impl<const N: usize> ConditionallyAssignable for [u64; N] {
    fn conditional_assign(&mut self, other: &[u64; N], choice: Mask) {
        let c = choice.value();
        // if choice = 0, mask = (-0) = 00..00
        // if choice = 1, mask = (-1) = 11..11
        let mask = -(c as i64) as u64;
        for i in 0..N
            invariant
                c == choice@,
                is_choice(c),
                mask == -(c as i64) as u64,
                forall|j: int| 0 <= j < i ==> self@[j] == chosen(c, other@[j], old(self)@[j]),
                forall|j: int| i <= j < N ==> self@[j] == old(self)@[j],
        {
            proof {
                lemma_masked_assign_u64(c, self@[i as int], other@[i as int]);
            }
            self[i] = self[i] ^ (mask & (self[i] ^ other[i]));
        }
        proof {
            broadcast use vstd::array::axiom_array_ext_equal;
            if c == 1 {
                assert(*self =~= *other);
            } else {
                assert(*self =~= *old(self));
            }
        }
    }
}

impl<const N: usize> ConditionallyAssignable for [u128; N] {
    fn conditional_assign(&mut self, other: &[u128; N], choice: Mask) {
        let c = choice.value();
        // if choice = 0, mask = (-0) = 00..00
        // if choice = 1, mask = (-1) = 11..11
        let mask = -(c as i128) as u128;
        for i in 0..N
            invariant
                c == choice@,
                is_choice(c),
                mask == -(c as i128) as u128,
                forall|j: int| 0 <= j < i ==> self@[j] == chosen(c, other@[j], old(self)@[j]),
                forall|j: int| i <= j < N ==> self@[j] == old(self)@[j],
        {
            proof {
                lemma_masked_assign_u128(c, self@[i as int], other@[i as int]);
            }
            self[i] = self[i] ^ (mask & (self[i] ^ other[i]));
        }
        proof {
            broadcast use vstd::array::axiom_array_ext_equal;
            if c == 1 {
                assert(*self =~= *other);
            } else {
                assert(*self =~= *old(self));
            }
        }
    }
}

/// Trait for things which are conditionally swappable in constant time.
pub trait ConditionallySwappable {
    /// Conditionally swap `self` and `other` if `choice == 1`; otherwise,
    /// reassign both unto themselves.
    fn conditional_swap(&mut self, other: &mut Self, choice: Mask) where Self: Sized
        requires
            is_choice(choice@),
        ensures
            *final(self) == chosen(choice@, *old(other), *old(self)),
            *final(other) == chosen(choice@, *old(self), *old(other)),
    ;
}

impl<T: ConditionallyAssignable + Copy> ConditionallySwappable for T {
    fn conditional_swap(&mut self, other: &mut T, choice: Mask) {
        let temp: T = *self;
        self.conditional_assign(other, choice);
        other.conditional_assign(&temp, choice);
    }
}

/// Swapping twice with the same choice gives back both starting values:
/// whatever the choice, `conditional_swap` undoes itself.
pub proof fn lemma_swap_twice_restores<T>(choice: u8, x: T, y: T)
    requires
        is_choice(choice),
    ensures
        chosen(choice, chosen(choice, x, y), chosen(choice, y, x)) == x,
        chosen(choice, chosen(choice, y, x), chosen(choice, x, y)) == y,
{
}

} // verus!
