//! A bounded pool of reusable objects.
//!
//! A [`MemoryPool`] hands out objects wrapped in [`ArcRecycled`] handles.
//! A handle can be cloned for shared reading; when the last clone is
//! released the object is reset and sent back to the pool over its
//! reclamation channel, where the next acquisition finds it.
//!
//! What a channel brings, what the counter reads and whether an object is
//! still shared is decided outside this crate. What the pool and the handle
//! make of each answer is a function of that answer with an exact contract
//! ([`memory_pool::next_step`], [`MemoryPool::grow_with`],
//! [`ArcRecycled::part_with`], [`arc_recycled::Parting::settle`]); the module
//! [`ledger`] runs the same decisions on a sequential model of the pool and
//! holds the capacity laws of it.

pub mod channel;
pub mod sharing;
pub mod arc_recycled;
pub mod memory_pool;
pub mod ledger;

pub use arc_recycled::ArcRecycled;
pub use arc_recycled::Recycle;
pub use memory_pool::MemoryPool;
