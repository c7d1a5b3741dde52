# raft_kv

A key/value store replicated with Raft (openraft). Its storage logic, the addresses of its
endpoints, the retry decision of its client and its Raft configuration are verified with Verus.

- `src/` — the verified library:
  - `ids.rs` — leader ids, log ids, votes and the order of log ids;
  - `text.rs` — decimal text of integers and the names of snapshots;
  - `membership.rs` — cluster membership as the log and the state machine carry it;
  - `kv.rs` — the key/value map of the state machine;
  - `entry.rs` — requests, responses and log entries;
  - `state_machine.rs` — applying entries, with the laws of reads and writes;
  - `log.rs` — the log, a `BTreeMap` from index to entry, with range reads, truncation and
    purging;
  - `snapshot.rs` — snapshot metadata and stored snapshots;
  - `store.rs` — the storage of a node and the laws that relate its operations;
  - `network.rs`, `client.rs` — addressing nodes, and the retry decisions of the client;
  - `node.rs`, `options.rs` — the Raft configuration of a node and its options.
- `tests/` — tests of the library on concrete values.
- `app/` — the HTTP server, the network and the Raft storage interface around the library.
