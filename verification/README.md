# simplex

The rules of a Simplex consensus session, written and proved in Verus: slots and
leader windows, candidates and their parents, votes and certificates, collation
of own blocks, finalization, and what is stored to resume a session.

- `src/` is the library. Each controller is a state machine whose view is an open
  spec structure; each method says what it does to that view. Clocks, keys,
  hashing, storage and the network stay outside: their results come in as plain
  values or through closures that may be called once, on what the contract names.
  What the library wants done goes out as plain values; only finalization, which
  goes on by the answers it gets, calls a `ConsensusBackend`, and says of every
  call that it makes.
- `tests/` runs the library on concrete sessions.
- `app/` wires the library to clocks, storage, metrics and the node.

The one function that is trusted rather than proved is `hex_encode` in
`src/text.rs`. Of a `ConsensusBackend` the library takes for granted that it
keeps count of the calls made to it; `ReplayBackend` is proved to.
