# near-clear-state

Wipes a contract account's on-chain state without deleting the account: one transaction deploys a
small cleanup contract and calls its `clean` method with every storage key. The cleanup contract
stays on the account until another is deployed.

`src/` is the verified library. It holds what is decided and computed, and the messages for what is
refused:

| Module       | What it holds                                                                   |
| ------------ | ------------------------------------------------------------------------------- |
| `plan`       | gas and size estimates, protocol parameters, the reading of gas costs            |
| `cleanup`    | storage entries out of a `view_state` answer, and the messages for failed queries |
| `wipe`       | the wipe transaction, the reasons for refusing one and their messages            |
| `clean_args` | the arguments of the `clean` call, written and read back                         |
| `key_text`   | the base64 text of a key                                                         |
| `action`     | transaction actions and their borsh encoding                                     |
| `filler`     | the entries that the state-filler contract inserts                               |
| `decimal`    | decimal notation                                                                 |
| `laws`       | what holds of the library as a whole                                             |

`app/` is the program around it: the command line, the RPC queries and the contracts' host calls. It
also rounds amounts of gas to Tgas for printing, in floating point.

`Cargo.toml` lists what the library, its tests and most of `app/` need. To build the program, two
things come on top: `near-cli-rs`, which `app/main.rs` and `app/cli.rs` use and which is left out for
the size of its dependency tree, and the cleanup contract compiled to `wasm/state_cleanup.wasm`,
which the program embeds. The contract's source is `app/state_cleanup.rs`.

A wipe is a single transaction, so it is refused where its gas estimate exceeds
`max_total_prepaid_gas`, where that budget does not fit in the 64 bits of a call's gas, or where
its estimated size comes within 100 KiB of `max_transaction_size`. Public RPCs also cap the state
that `view_state` returns, and a listing that is not complete is refused.
