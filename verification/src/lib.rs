//! A fixed-size cyclic FIFO queue for one producer and one consumer.
//!
//! `ring` holds the queue storage and its index arithmetic, `shared` the queue
//! that a producer and a consumer share, and `arith` the facts of modular
//! arithmetic that the ring's proofs use.
use vstd::prelude::*;

pub mod arith;
pub mod ring;
pub mod shared;

pub use ring::UnsafeCyclicQueue;
pub use shared::{Consumer, CyclicQueue, Producer};

verus! {

/// Result in the case of a push onto a full queue.
#[derive(Debug, PartialEq, Eq, Copy, Clone, Structural)]
pub struct FullQueueError;

} // verus!
