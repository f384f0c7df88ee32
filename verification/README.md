# defi

Verified models of a collection of Radix DeFi components, written in Verus.

Each component is plain state: amounts as fixed-point `Decimal`s, resource
and component addresses as numbers, tokens as values. Each method is an
executable function whose contract states, for every input, either the
error it returns (leaving the state unchanged) or the exact new state and
the tokens that leave the component. Roles and badges are plain values too:
a method restricted to a badge takes a `Proof` of it (or the badge itself,
where the component checks one particular non-fungible badge) and refuses
any other with an error, leaving the state unchanged.

Layout:

- `src/decimal.rs`, `src/bignum.rs`: fixed-point decimals and the big
  integers behind them (the only calls into an outside crate, num-bigint).
- `src/resource.rs`: addresses, buckets and proofs.
- `src/bonding.rs`, `src/curves.rs`: bonding curves and the bonding AMM.
- `src/amm.rs`, `src/awesome.rs`, `src/krulkswap.rs`, `src/candy.rs`,
  `src/singlepool.rs`, `src/pool.rs`, `src/dex.rs`: exchanges and pools.
- `src/orderbook.rs`, `src/trading_pair.rs`, `src/market.rs`,
  `src/marketplace.rs`: order books and markets.
- `src/lending.rs`, `src/platform.rs`, `src/flashloan.rs`,
  `src/loanpool.rs`: lending and flash loans.
- `src/estate*.rs`: real estate rights, their service, construction
  institutes and market.
- the other modules: smaller vault-keeping components.

`app/lib.rs` holds what stays outside the library: the code generation
that turns a trait into a stub blueprint, written over syn's syntax trees.

Laws that span several calls are public proof functions beside the code
they speak of (their names start with `lemma_`). `tests/` runs the
components on concrete values.
