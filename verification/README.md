# sorocron

A job scheduler for Soroban contracts, verified with Verus. Job owners
register calls to be made on a schedule (optionally only when a resolver
contract agrees) and prepay a fee per run; staked keepers execute due jobs
and collect the fee. Target calls go through an executor that holds nothing,
and a TTL guardian keeps other contracts from being archived.

Layout:

- `src/` — the verified library.
  - `registry.rs`: the registry's entry points. Each is specified by a step
    function from the storage before the call to its result, the storage
    after it and the requests it makes of the host (signature checks, token
    transfers, target calls, events), and is proved to take exactly that step.
  - `storage.rs`, `env.rs`: the contract's storage and the environment a call
    runs in; `types.rs`, `events.rs`, `errors.rs`, `address.rs`: its data.
  - `digest.rs`: the SHA-256 that the Soroban host computes, which the
    `JobExecuted` event carries of the target call's result.
  - `executor.rs`, `ttl_guardian.rs`: the executor and the TTL guardian.
  - `laws.rs`, `accounting.rs`: properties proved across calls — scheduling
    never fires missed runs back to back, pausing blocks activity but never
    exits, the admin changes only in two steps, and the registry's holdings of
    each token move exactly with its books.
- `app/` — the Soroban contracts: each entry point loads the records it
  touches, lets the library decide, performs the host requests and stores the
  records back.
- `tests/` — tests of the library, with the host simulated around it.
