# seminar_node

A small Bitcoin peer-to-peer node. The library (`src/`) holds its rules and
is verified with Verus; the program (`app/`) drives sockets, the SQLite
peers table, threads and tokio tasks around it.

- `peer`: peer statuses and their texts in the peers table, peers read from rows.
- `address`: dotted-quad IPv4 parsing and text, IPv4-mapped IPv6 addresses, the
  display text of IPv6 addresses, the text under which a peer is stored.
- `message`: the messages the node sends and tells apart, framed and read by
  the `bitcoin` crate.
- `node`: the many-peer node: worker bookkeeping, peer selection, admission,
  handshake progress and message handling decisions.
- `threaded`: the node that starts from one peer: bounded peer list and the
  strict handshake.
- `daemon`: command-line defaults and log levels.
- `error`: the node's failures and their messages.
