# obligation

The borrowing position of one owner in a lending market: up to eight deposits of
collateral, up to five borrows, and the values that decide what may be withdrawn,
borrowed or liquidated.

- `src/` is the library, verified with Verus. `obligation.rs`, `collateral.rs` and
  `liquidity.rs` hold the position and its operations; `model.rs` says what they mean,
  over sequences and integers; `laws.rs` proves what holds across operations;
  `summary.rs` writes a position out, and `lines.rs` counts the lines of that.
- `fraction.rs` is fixed-point arithmetic on the bits of the `fixed` crate's `U68F60`,
  `u256.rs` the 256-bit integers that interest is computed with, `decimal.rs` decimal
  text.
- `app/` holds the account layout and the error codes of the on-chain program, and
  the operations that log why they refuse.
- `tests/` runs the library on concrete values.
