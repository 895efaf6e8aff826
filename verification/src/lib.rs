//! Kernel-space process-activity monitor, modelled and verified.
//!
//! The library covers the probe pipeline of a host-based process sensor:
//! version-stable accessors over snapshots of live kernel objects, a
//! fixed-layout wire event format with an auxiliary string buffer, an
//! interest store that decides which processes are worth reporting, bounded
//! per-CPU staging that keeps event assembly safe under probe reentrancy,
//! the fork/exit probe handlers themselves, and a bounded, never-blocking
//! output channel towards user space.

pub mod accessors;
pub mod channel;
pub mod events;
pub mod handlers;
pub mod interest;
pub mod staging;
