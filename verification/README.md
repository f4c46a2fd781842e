# dex

A constant-product automated market maker (Uniswap-v2 style) for two SPL tokens, as
a library verified with Verus, and the Anchor program around it.

- `src/` is the verified library.
  - `state.rs`: the pool account (`Pool`) and the checked updates of its cached
    reserves (`deposit`, `withdraw`, `settle_swap`).
  - `math.rs`: the pricing arithmetic (integer square root, fee-discounted input,
    constant-product output, LP tokens for a deposit, payout of a withdrawal).
  - `instructions/`: each instruction as a quote, decided before any token moves, and
    a `handler` that runs the quote and the reserve update together.
  - `laws.rs`: what the arithmetic keeps across instructions: the product of the
    reserves never shrinks under a swap, a larger input never pays less, a swap or a
    deposit undone at once never returns more than it put in, deposits and withdrawals
    never lower the backing of an LP token, the two swap directions mirror each other,
    a swap reads only the cached reserves and fee, and the pool stays consistent with
    its LP supply. Every refused instruction leaves the pool unchanged.
- `app/` is the Solana program: the accounts of each instruction, the token transfers,
  mints and burns, and the entry points. It asks the library for every decision.
- `tests/` runs the library on concrete pools.
