//! Fixed-capacity containers for environments where dynamic memory
//! allocation must be avoided or tightly controlled: a growable vector
//! with a fixed capacity, a bounded single-producer single-consumer
//! queue, and an overwriting circular buffer.
//!
//! Every container is constructed with a capacity that never changes,
//! and every operation that would exceed it reports the failure to the
//! caller, handing back the rejected value instead of dropping it.

pub mod circular_buffer;
pub mod ring_buffer;
pub mod vec;

pub use circular_buffer::CircularBuffer;
pub use ring_buffer::{AtomicUsize, RingBuffer};
pub use vec::FixedVec;
