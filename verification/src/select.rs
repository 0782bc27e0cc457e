//! Constant-time selection between two integers, and the traits for
//! conditional negation and non-zero tests.
use vstd::prelude::*;

use crate::assign::ConditionallyAssignable;
use crate::mask::{bool_mask, chosen, is_choice, Mask};

verus! {

/// Select `a` if `choice == 1` or select `b` if `choice == 0`, in constant time.
///
/// The behaviour is only defined when `choice` is `0` or `1`.
pub trait ConditionallySelectable {
    /// Select `a` if `choice == 1` or select `b` if `choice == 0`, in constant time.
    fn conditional_select(a: Self, b: Self, choice: Mask) -> (r: Self) where Self: Sized
        requires
            is_choice(choice@),
        ensures
            r == chosen(choice@, a, b),
    ;
}

/// With `d = choice - 1`, which is `0` or all ones, `(!d & a) | (d & b)`
/// is `a` or `b`.
proof fn lemma_masked_select_i8(d: i8, a: i8, b: i8)
    by (bit_vector)
    requires
        d == 0 || d == -1,
    ensures
        (!d & a) | (d & b) == (if d == 0 { a } else { b }),
{
}

impl ConditionallySelectable for i8 {
    fn conditional_select(a: i8, b: i8, choice: Mask) -> (r: i8) {
        let choice = choice.value() as i8;
        let one = 1u8 as i8;
        proof {
            lemma_masked_select_i8((choice - one) as i8, a, b);
        }
        (!(choice - one) & a) | ((choice - one) & b)
    }
}

/// With `d = choice - 1`, which is `0` or all ones, `(!d & a) | (d & b)`
/// is `a` or `b`.
proof fn lemma_masked_select_i16(d: i16, a: i16, b: i16)
    by (bit_vector)
    requires
        d == 0 || d == -1,
    ensures
        (!d & a) | (d & b) == (if d == 0 { a } else { b }),
{
}

impl ConditionallySelectable for i16 {
    fn conditional_select(a: i16, b: i16, choice: Mask) -> (r: i16) {
        let choice = choice.value() as i16;
        let one = 1u8 as i16;
        proof {
            lemma_masked_select_i16((choice - one) as i16, a, b);
        }
        (!(choice - one) & a) | ((choice - one) & b)
    }
}

/// With `d = choice - 1`, which is `0` or all ones, `(!d & a) | (d & b)`
/// is `a` or `b`.
proof fn lemma_masked_select_i32(d: i32, a: i32, b: i32)
    by (bit_vector)
    requires
        d == 0 || d == -1,
    ensures
        (!d & a) | (d & b) == (if d == 0 { a } else { b }),
{
}

impl ConditionallySelectable for i32 {
    fn conditional_select(a: i32, b: i32, choice: Mask) -> (r: i32) {
        let choice = choice.value() as i32;
        let one = 1u8 as i32;
        proof {
            lemma_masked_select_i32((choice - one) as i32, a, b);
        }
        (!(choice - one) & a) | ((choice - one) & b)
    }
}

/// With `d = choice - 1`, which is `0` or all ones, `(!d & a) | (d & b)`
/// is `a` or `b`.
proof fn lemma_masked_select_i64(d: i64, a: i64, b: i64)
    by (bit_vector)
    requires
        d == 0 || d == -1,
    ensures
        (!d & a) | (d & b) == (if d == 0 { a } else { b }),
{
}

impl ConditionallySelectable for i64 {
    fn conditional_select(a: i64, b: i64, choice: Mask) -> (r: i64) {
        let choice = choice.value() as i64;
        let one = 1u8 as i64;
        proof {
            lemma_masked_select_i64((choice - one) as i64, a, b);
        }
        (!(choice - one) & a) | ((choice - one) & b)
    }
}

/// With `d = choice - 1`, which is `0` or all ones, `(!d & a) | (d & b)`
/// is `a` or `b`.
proof fn lemma_masked_select_i128(d: i128, a: i128, b: i128)
    by (bit_vector)
    requires
        d == 0 || d == -1,
    ensures
        (!d & a) | (d & b) == (if d == 0 { a } else { b }),
{
}

impl ConditionallySelectable for i128 {
    fn conditional_select(a: i128, b: i128, choice: Mask) -> (r: i128) {
        let choice = choice.value() as i128;
        let one = 1u8 as i128;
        proof {
            lemma_masked_select_i128((choice - one) as i128, a, b);
        }
        (!(choice - one) & a) | ((choice - one) & b)
    }
}

/// Trait for items which can be conditionally negated in constant time.
pub trait ConditionallyNegatable {
    /// The value that negating `self` gives.
    spec fn negated(&self) -> Self where Self: Sized;

    /// Conditionally negate an element if `choice == 1u8`; with `choice == 0`
    /// the element is left unchanged.
    fn conditional_negate(&mut self, choice: Mask) where Self: Sized
        requires
            is_choice(choice@),
        ensures
            *final(self) == chosen(choice@, old(self).negated(), *old(self)),
    ;
}

impl ConditionallyNegatable for i8 {
    /// Two's-complement negation: `-x`, where the minimum value, whose
    /// negation does not fit, is its own negation.
    open spec fn negated(&self) -> i8 {
        if *self == i8::MIN {
            i8::MIN
        } else {
            (-*self) as i8
        }
    }

    fn conditional_negate(&mut self, choice: Mask) {
        let neg: i8 = 0i8.wrapping_sub(*self);
        self.conditional_assign(&neg, choice);
    }
}

impl ConditionallyNegatable for i16 {
    /// Two's-complement negation: `-x`, where the minimum value, whose
    /// negation does not fit, is its own negation.
    open spec fn negated(&self) -> i16 {
        if *self == i16::MIN {
            i16::MIN
        } else {
            (-*self) as i16
        }
    }

    fn conditional_negate(&mut self, choice: Mask) {
        let neg: i16 = 0i16.wrapping_sub(*self);
        self.conditional_assign(&neg, choice);
    }
}

impl ConditionallyNegatable for i32 {
    /// Two's-complement negation: `-x`, where the minimum value, whose
    /// negation does not fit, is its own negation.
    open spec fn negated(&self) -> i32 {
        if *self == i32::MIN {
            i32::MIN
        } else {
            (-*self) as i32
        }
    }

    fn conditional_negate(&mut self, choice: Mask) {
        let neg: i32 = 0i32.wrapping_sub(*self);
        self.conditional_assign(&neg, choice);
    }
}

impl ConditionallyNegatable for i64 {
    /// Two's-complement negation: `-x`, where the minimum value, whose
    /// negation does not fit, is its own negation.
    open spec fn negated(&self) -> i64 {
        if *self == i64::MIN {
            i64::MIN
        } else {
            (-*self) as i64
        }
    }

    fn conditional_negate(&mut self, choice: Mask) {
        let neg: i64 = 0i64.wrapping_sub(*self);
        self.conditional_assign(&neg, choice);
    }
}

impl ConditionallyNegatable for i128 {
    /// Two's-complement negation: `-x`, where the minimum value, whose
    /// negation does not fit, is its own negation.
    open spec fn negated(&self) -> i128 {
        if *self == i128::MIN {
            i128::MIN
        } else {
            (-*self) as i128
        }
    }

    fn conditional_negate(&mut self, choice: Mask) {
        let neg: i128 = 0i128.wrapping_sub(*self);
        self.conditional_assign(&neg, choice);
    }
}

/// Trait for testing if something is non-zero in constant time.
pub trait IsNonZero {
    /// Whether `self` is non-zero.
    spec fn nonzero(&self) -> bool;

    /// Test if `self` is non-zero in constant time.
    ///
    /// * If `self != 0`, returns `1`.
    /// * If `self == 0`, returns `0`.
    fn is_nonzero(&self) -> (r: Mask)
        ensures
            r@ == bool_mask(self.nonzero()),
    ;
}

/// Negating an `i8` gives the value that adds to `x` to make zero modulo
/// `2^8`, the only such value of the type; negating twice gives `x` back.
pub proof fn lemma_negated_i8(x: i8)
    ensures
        (x as int + x.negated() as int) % (u8::MAX as int + 1) == 0,
        x.negated().negated() == x,
        x == 0 <==> x.negated() == 0,
{
}

/// Negating an `i16` gives the value that adds to `x` to make zero modulo
/// `2^16`, the only such value of the type; negating twice gives `x` back.
pub proof fn lemma_negated_i16(x: i16)
    ensures
        (x as int + x.negated() as int) % (u16::MAX as int + 1) == 0,
        x.negated().negated() == x,
        x == 0 <==> x.negated() == 0,
{
}

/// Negating an `i32` gives the value that adds to `x` to make zero modulo
/// `2^32`, the only such value of the type; negating twice gives `x` back.
pub proof fn lemma_negated_i32(x: i32)
    ensures
        (x as int + x.negated() as int) % (u32::MAX as int + 1) == 0,
        x.negated().negated() == x,
        x == 0 <==> x.negated() == 0,
{
}

/// Negating an `i64` gives the value that adds to `x` to make zero modulo
/// `2^64`, the only such value of the type; negating twice gives `x` back.
pub proof fn lemma_negated_i64(x: i64)
    ensures
        (x as int + x.negated() as int) % (u64::MAX as int + 1) == 0,
        x.negated().negated() == x,
        x == 0 <==> x.negated() == 0,
{
}

/// Negating an `i128` gives the value that adds to `x` to make zero modulo
/// `2^128`, the only such value of the type; negating twice gives `x` back.
pub proof fn lemma_negated_i128(x: i128)
    ensures
        (x as int + x.negated() as int) % (u128::MAX as int + 1) == 0,
        x.negated().negated() == x,
        x == 0 <==> x.negated() == 0,
{
}

} // verus!
