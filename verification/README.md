# kv_client

A client for a sharded key/value service, written in Verus.

`src/` is the verified library:

- `util/parser.rs`: the wire format (numbers, small and bulk strings,
  arrays, request and response heads) with decoders on byte slices whose
  results are stated exactly, round-trip laws for every encoding, and laws
  that a decided decoding does not change when more bytes arrive.
- `commands/`: requests (with their exact encodings and frames) and answers
  (with their exact decoders) for texts, counters, bloom filters, rate
  limiters and arrays of texts; status, type and connection codes.
- `cluster/`: keys to tokens (XXH3), tokens to nodes (the owner of a token
  in a table ordered by range ends), the routing table built from a cluster
  description, and the nodes that need a new connection.
- `pool/async_pool.rs`: the round robin over a pool's connections and the
  first-in first-out bookkeeping of requests waiting on one connection.

`app/` is the unverified part that does I/O: sockets, tasks, channels,
atomics and the JSON forms of the cluster description. It drives the
library's functions: the decoding, framing, routing, round robin and the
order of waiting requests are decided there. What `app/` keeps for itself
is bookkeeping: it pairs each replica id of the routing table with the node
(and its connection pool) that the id names, and replaces both together.

`tests/` runs the library on concrete values.
