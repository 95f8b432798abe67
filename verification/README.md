# cyclic_queue

A fixed-size cyclic FIFO queue for one producer and one consumer, verified with Verus.

- `src/ring.rs`: `UnsafeCyclicQueue`, the ring of `SIZE` slots with its two
  logical indices. The indices run up to the largest multiple of `SIZE` that
  fits in a `usize`, so a full ring and an empty ring are told apart without
  an unused slot. Its contracts describe push and pop over the sequence of
  stored elements, oldest first, and over the slots and indices they touch.
- `src/shared.rs`: `CyclicQueue`, `Producer` and `Consumer`. The same index
  scheme with the indices in atomics: only the producer advances the end
  index and only the consumer the begin index, each after moving its element
  in or out of the slot. Each slot is a cell of its own (a verified lock that
  spins while held); by design the two sides never want the same cell at the
  same time, so neither waits for the other. That argument is design intent,
  not a verified property. Two flags hand
  out at most one producer and one consumer at a time.
- `src/arith.rs`: the modular-arithmetic lemmas the ring's proofs use.
- `app/lib.rs`: runs a producer and a consumer on two threads.
