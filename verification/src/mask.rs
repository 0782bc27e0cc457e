//! The choice type shared by every constant-time operation.
use vstd::prelude::*;

verus! {

/// The value a mask stands for when it comes from a boolean: `1` for
/// `true`, `0` for `false`.
pub open spec fn bool_mask(b: bool) -> u8 {
    if b {
        1u8
    } else {
        0u8
    }
}

/// A mask holds a choice, meaningful for the operations of this crate when
/// it is `0` or `1`.
pub open spec fn is_choice(m: u8) -> bool {
    m == 0 || m == 1
}

/// What a choice picks between `a` (choice `1`) and `b` (otherwise).
pub open spec fn chosen<T>(choice: u8, a: T, b: T) -> T {
    if choice == 1 {
        a
    } else {
        b
    }
}

/// `core::hint::black_box`: documented as an identity function that the
/// optimiser must treat as opaque.  Claimed: the result is the argument.
#[verifier::external_body]
fn black_box_u8(input: u8) -> (r: u8)
    ensures
        r == input,
{
    core::hint::black_box(input)
}

/// No-Op(timisations, Please)
///
/// Prevent optimisers from treating types like `Mask` (which should only ever
/// have a value of 0 or 1) as an i1/boolean instead of an integer.  The value
/// is handed back unchanged.
pub fn noop(input: u8) -> (r: u8)
    ensures
        r == input,
{
    black_box_u8(input)
}

/// A `Mask` represents a choice which is _not_ a boolean.
#[derive(Clone, Copy, Debug, PartialEq, Eq, Structural)]
pub struct Mask(u8);

impl View for Mask {
    type V = u8;

    closed spec fn view(&self) -> u8 {
        self.0
    }
}

impl Mask {
    /// The byte the mask holds.
    pub(crate) fn value(self) -> (r: u8)
        ensures
            r == self@,
    {
        self.0
    }
}

impl From<u8> for Mask {
    fn from(input: u8) -> (r: Mask)
        ensures
            r@ == input,
    {
        Mask(noop(input))
    }
}

impl vstd::std_specs::convert::FromSpecImpl<u8> for Mask {
    open spec fn obeys_from_spec() -> bool {
        true
    }

    closed spec fn from_spec(v: u8) -> Mask {
        Mask(v)
    }
}

} // verus!
