# rpc_plugin

Callbacks for plugins of a Solana RPC node, verified with Verus: looking up
accounts, simulating transactions, reading the latest blockhash, and giving back
the memory that the replies took.

## Layout

- `src/`: the library. A request is a conversation: each step says what to ask of
  the service next, or gives the reply.
  - `heap`, `memory`: the memory that crosses the C boundary, and what is behind a
    pointer.
  - `repr`, `values`, `transaction`, `service`: what is sent, what is received, and
    what is asked.
  - `bytes`, `accounts`, `posts`, `pubkeys`: buffers, C strings, accounts and arrays
    in memory, with the functions that free them.
  - `lookup`, `blockhash`, `simulate`, `structured`, `encoded`: the requests.
  - `codec`: the encoded form of a simulation, by `bincode`.
  - `registry`: what a plugin is told about when it is loaded.
  - `reading`, `laws`: what is read out of a reply, and what holds across calls.
- `app/`: the C side, with real pointers, and the service behind it.
- `tests/`: the library at work on concrete values.
