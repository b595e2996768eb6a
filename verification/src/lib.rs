//! Verified core of a small multi-threaded async runtime: the slot
//! allocator behind its arena, the bounded task rings, the task and one-shot
//! channel state machines, the shared runtime state, and the scheduling
//! decisions of its threads.

pub mod bits;
pub mod arena;
pub mod ring;
pub mod task;
pub mod worker;
pub mod oneshot;
pub mod config;
pub mod global;
