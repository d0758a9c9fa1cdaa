# cardano_lightning_client

A client for the Lightning Liquidity Manager contract on Cardano, verified with Verus.

The contract keeps a pool of cBTC for Lightning swaps. The client reads the pool state from
the datum of the contract, works out the next state for each operation, and builds and signs
the transaction that leads there.

## Layout

- `src/` is the library. Its functions state what they return, and Verus proves it.
  - `types`, `datum`, `cbor`, `json`, `base16`, `text`: the pool state and its forms as
    Plutus JSON and CBOR; `round_trip` has the laws that relate them
  - `steps`: the operations as steps between pool states; `laws` has what they keep and undo
  - `tx_builder`, `contract`: transactions, as the `whisky` SDK builds them; `guard`,
    `address` and `digits` tell beforehand whether it can
  - `agent`, `parameters`, `operator`: what to ask a Blockfrost-compatible API for, and what
    to make of its answers
- `tests/` are tests of the library.
- `app/` is the program around it: the command line and the HTTP requests.

The functions marked `external_body` call `ciborium`, `hex`, `serde_json` and `whisky`. Their
contracts are not proved; each says in its comment what it claims of the call.
