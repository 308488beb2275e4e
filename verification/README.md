# raft

The decisions of a Raft node, written in Verus with their contracts proved:
quorum counting, elections and votes, role changes, cluster membership, the
operation log, the replicated state machine and the gRPC message conversions.

- `src/` is the verified library.
- `tests/` runs it on concrete values.
- `app/` is the node program around it: threads, channels, the gRPC transport
  and logging. It hands plain values to the library and performs the actions
  the library returns.
