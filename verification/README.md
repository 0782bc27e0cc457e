# subtle (verified)

Constant-time primitives whose behaviour is proved with Verus.

- `src/mask.rs`: the `Mask` choice type, `noop`, and the spec functions
  `bool_mask`, `is_choice` and `chosen` that the contracts are written in.
- `src/equal.rs`: `Equal` (constant-time equality) for `u8`..`u128` and arrays of
  them, `bytes_equal`, `byte_is_nonzero`, `slices_equal`.
- `src/assign.rs`: `ConditionallyAssignable` for integers (8 to 128 bits) and integer arrays,
  `ConditionallySwappable` for every assignable `Copy` type.
- `src/select.rs`: `ConditionallySelectable` and `ConditionallyNegatable`
  (two's-complement negation) for signed integers, and the `IsNonZero` trait.

Every operation that consumes a `Mask` requires it to hold `0` or `1`.
