//! A two-tier key-space allocator for a persistent key-value store.
//!
//! Callers request a storage region sized either for a single slot (a
//! *cell*) or for a fixed span of `2^32` slots (a *chunk*) and receive a
//! unique, recyclable address ([`key::Key`]) into a flat, totally ordered
//! address space.  Allocation and deallocation are constant-time; freed
//! addresses become eligible for reuse.
//!
//! The crate is organised bottom-up:
//! - [`key`]: the address type and its checked offset arithmetic;
//! - [`stash`]: a recycling index assigner tracking which small indices
//!   are occupied;
//! - [`error`]: the failure taxonomy shared by all operations;
//! - [`allocator`]: the [`allocator::Allocator`] capability, the
//!   [`allocator::CellChunkAlloc`] core and its index/key arithmetic;
//! - [`bootstrap`]: a forward (bump) allocator used once, at construction,
//!   to reserve the two base addresses;
//! - [`laws`]: proofs of the allocator-wide properties (uniqueness of live
//!   keys, recycling, round-trips of the arithmetic).

pub mod allocator;
pub mod bootstrap;
pub mod error;
pub mod key;
pub mod laws;
pub mod stash;

pub use crate::allocator::Allocator;
pub use crate::allocator::CellChunkAlloc;
pub use crate::bootstrap::ForwardAlloc;
pub use crate::error::AllocError;
pub use crate::key::Key;
pub use crate::stash::Stash;
