# icn_core

The core of an Inter-Cooperative Network node: a blockchain of blocks and
transactions, sharding with per-shard balances, cross-shard transactions,
decentralized identities, a democratic proposal system, smart contracts, a
small contract language (CSCL) with its lexer and parser, a stack VM, and the
named-data networking tables of a node (content store, pending interest
table, forwarding information base).

Layout:

- `src/` is the library, written in Verus. Each public function states what it
  returns or changes in `requires` / `ensures`; the properties that relate
  several operations stand as public `lemma_*` proof functions next to the
  types they speak of. Calls into outside crates (ed25519, SHA-256, hex, LRU
  cache, uuid, chrono) go through small trusted wrappers whose doc comments
  say what is assumed of them.
- `tests/` runs the library on concrete values.
- `app/` is the program around it: the command line, logging, serde records,
  the async communicator, and the parts that compute on floating-point
  amounts (consensus scores, currency balances, governance verdicts).
