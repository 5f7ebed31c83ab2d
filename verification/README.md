# amm

A constant-product automated market maker (x * y = k) for two tokens, with
LP tokens and a swap fee in basis points.

- `src/` is the verified library: the swap curve, the LP arithmetic of
  deposits and withdrawals (with an integer square root for the first
  deposit), the pool configuration and its signer seeds. Each instruction
  takes the account values it reads and returns the token-program calls
  that carry it out, or the error that refuses it. `src/laws.rs` holds the
  properties that span instructions.
- `app/` is the on-chain program: account validation, the token-program
  calls and the entry points, built on the library.
- `tests/` runs the library on concrete pools.
