# decimal

Decimal floating point numbers in the 64-bit format of IEEE 754-2008
(`d64`), with the arithmetic of libdecNumber, reached through the `dec`
crate.

- `src/encoding.rs` models an encoding as a sign, a coefficient and an
  exponent (or an infinity or a NaN) and decodes the densely packed decimal
  fields with verified code.
- `src/bindings.rs` holds the calls into libdecNumber and what is assumed of
  each of them.
- `src/dec64.rs`, `src/convert.rs`, `src/arith.rs` and `src/order.rs` hold
  the `d64` type, its conversions, its operators and methods, and its
  comparisons, each with its contract.
- `src/status.rs` and `src/reporting.rs` give the status flags that each
  operation raises (`Flags`, and the `*_with_status` methods).
- `src/laws.rs` states and proves the properties that hold across
  operations: round trips, the laws of the orders, classification.
- `app/` holds what Verus does not see: formatting traits, serde and
  rustc-serialize support, `ord_subset`, `Sum` over iterators and the
  thread-local status register that the operations on its `D64` feed.
