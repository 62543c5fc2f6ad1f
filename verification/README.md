# urcu

Userspace read-copy-update, verified with Verus.

- `src/common/ring.rs`: the model of intrusive circular doubly-linked lists
  (nodes in an arena, linked by index), the link updates of each list
  operation, and the proofs of what they do to lists.
- `src/common/list.rs`, `src/utils/list.rs`: the list operations (with and
  without a payload per node).
- `src/common/rcu_common.rs`: reader records and the reader registry.
- `src/rcu_mb.rs`: the memory-barrier flavour: nesting counters, the phase
  flip, which readers a grace period waits for, and the steps of a grace
  period. Its state keeps the counter valid as a type invariant.
- `src/rcu_qsbr.rs`: the quiescent-state flavour, with its fixed counter
  `GP_CTR`.
- `src/common/mutex.rs`, `src/utils/mutex.rs`: the futex emulation's steps.
- `app/`: the process-wide state behind locks, thread identities, logging,
  and the waiting itself.
