use subtle::assign::{ConditionallyAssignable, ConditionallySwappable};
use subtle::equal::{byte_is_nonzero, bytes_equal, slices_equal, Equal};
use subtle::mask::{noop, Mask};
use subtle::select::{ConditionallyNegatable, ConditionallySelectable};

#[test]
fn bytes_equal_examples() {
    let a: u8 = 0xDE;
    let b: u8 = 0xAD;

    assert_eq!(bytes_equal(a, b), Mask::from(0));
    assert_eq!(bytes_equal(a, a), Mask::from(1));
}

#[test]
fn bytes_equal_every_pair_with_zero() {
    for v in 0..=255u8 {
        let expected = if v == 0 { 1 } else { 0 };
        assert_eq!(bytes_equal(v, 0), Mask::from(expected));
        assert_eq!(bytes_equal(0, v), Mask::from(expected));
    }
}

#[test]
fn byte_is_nonzero_examples() {
    assert_eq!(byte_is_nonzero(0), Mask::from(0));
    assert_eq!(byte_is_nonzero(3), Mask::from(1));
}

#[test]
fn byte_is_nonzero_every_byte() {
    for v in 0..=255u8 {
        let expected = if v != 0 { 1 } else { 0 };
        assert_eq!(byte_is_nonzero(v), Mask::from(expected));
    }
}

#[test]
fn slices_equal_examples() {
    let a: [u8; 3] = [0, 1, 2];
    let b: [u8; 3] = [1, 2, 3];
    assert_eq!(slices_equal(&a, &b), Mask::from(0));

    let c: [u8; 3] = [0, 1, 2];
    assert_eq!(slices_equal(&a, &c), Mask::from(1));

    let empty: [u8; 0] = [];
    assert_eq!(slices_equal(&empty, &empty), Mask::from(1));
}

#[test]
fn slices_equal_last_byte_differs() {
    let a: [u8; 5] = [9, 9, 9, 9, 9];
    let b: [u8; 5] = [9, 9, 9, 9, 8];
    assert_eq!(slices_equal(&a, &b), Mask::from(0));
    assert_eq!(slices_equal(&a[..4], &b[..4]), Mask::from(1));
}

#[test]
fn array_ct_eq_agrees_with_slices_equal() {
    let a: [u8; 4] = [1, 2, 3, 4];
    let b: [u8; 4] = [1, 2, 0, 4];
    assert_eq!(a.ct_eq(&b), slices_equal(&a, &b));
    assert_eq!(a.ct_eq(&a), slices_equal(&a, &a));
}

#[test]
fn integer_equal_extremes() {
    assert_eq!(0u8.ct_eq(&0x80), Mask::from(0));
    assert_eq!(0xFFu8.ct_eq(&0xFF), Mask::from(1));
    assert_eq!(0u16.ct_eq(&0x8000), Mask::from(0));
    assert_eq!(1u32.ct_eq(&0x8000_0001), Mask::from(0));
    assert_eq!(u64::MAX.ct_eq(&u64::MAX), Mask::from(1));
    assert_eq!(u64::MAX.ct_eq(&(u64::MAX - 1)), Mask::from(0));
    assert_eq!(0u64.ct_eq(&(1u64 << 63)), Mask::from(0));
}

#[test]
fn arrays_equal_one_element_differs() {
    let x: [u64; 3] = [7, 7, 7];
    let y: [u64; 3] = [7, 7, 1 << 40];
    assert_eq!(x.ct_eq(&y), Mask::from(0));
    let e: [u16; 0] = [];
    assert_eq!(e.ct_eq(&e), Mask::from(1));
}

#[test]
fn conditional_select_extremes() {
    assert_eq!(i8::conditional_select(i8::MIN, i8::MAX, Mask::from(1)), i8::MIN);
    assert_eq!(i8::conditional_select(i8::MIN, i8::MAX, Mask::from(0)), i8::MAX);
    assert_eq!(i16::conditional_select(-1, 0, Mask::from(1)), -1);
    assert_eq!(i16::conditional_select(-1, 0, Mask::from(0)), 0);
}

#[test]
fn conditional_assign_negative_values() {
    let mut x: i64 = -5;
    x.conditional_assign(&i64::MIN, Mask::from(0));
    assert_eq!(x, -5);
    x.conditional_assign(&i64::MIN, Mask::from(1));
    assert_eq!(x, i64::MIN);
}

#[test]
fn conditional_swap_swaps_or_keeps() {
    let mut x: u32 = 13;
    let mut y: u32 = 42;

    x.conditional_swap(&mut y, Mask::from(0));
    assert_eq!((x, y), (13, 42));
    x.conditional_swap(&mut y, Mask::from(1));
    assert_eq!((x, y), (42, 13));
}

#[test]
fn conditional_swap_twice_restores() {
    for c in 0..2u8 {
        let mut x: [u8; 4] = [1, 2, 3, 4];
        let mut y: [u8; 4] = [5, 6, 7, 8];
        x.conditional_swap(&mut y, Mask::from(c));
        x.conditional_swap(&mut y, Mask::from(c));
        assert_eq!(x, [1, 2, 3, 4]);
        assert_eq!(y, [5, 6, 7, 8]);
    }
}

#[test]
fn noop_and_mask_keep_the_byte() {
    for v in 0..=255u8 {
        assert_eq!(noop(v), v);
        assert_eq!(Mask::from(v), Mask::from(noop(v)));
    }
    assert_ne!(Mask::from(0), Mask::from(1));
}

#[test]
fn conditional_negate_signed_integers() {
    let mut a: i8 = 5;
    a.conditional_negate(Mask::from(0));
    assert_eq!(a, 5);
    a.conditional_negate(Mask::from(1));
    assert_eq!(a, -5);

    let mut b: i16 = -300;
    b.conditional_negate(Mask::from(1));
    assert_eq!(b, 300);

    let mut c: i32 = 0;
    c.conditional_negate(Mask::from(1));
    assert_eq!(c, 0);

    let mut d: i64 = 8723884895;
    d.conditional_negate(Mask::from(1));
    assert_eq!(d, -8723884895);

    let mut e: i128 = -1;
    e.conditional_negate(Mask::from(1));
    assert_eq!(e, 1);
}

#[test]
fn conditional_negate_minimum_value() {
    let mut a: i8 = i8::MIN;
    a.conditional_negate(Mask::from(0));
    assert_eq!(a, i8::MIN);
    a.conditional_negate(Mask::from(1));
    assert_eq!(a, i8::MIN);

    let mut b: i64 = i64::MIN;
    b.conditional_negate(Mask::from(1));
    assert_eq!(b, i64::MIN);
}

#[test]
fn wide_integers() {
    assert_eq!(u128::MAX.ct_eq(&u128::MAX), Mask::from(1));
    assert_eq!(0u128.ct_eq(&(1u128 << 127)), Mask::from(0));
    assert_eq!(i128::conditional_select(i128::MIN, 7, Mask::from(1)), i128::MIN);
    assert_eq!(i128::conditional_select(i128::MIN, 7, Mask::from(0)), 7);
}
