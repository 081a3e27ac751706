//! A verified core for a sandboxed command-execution service.
//!
//! The library models task groups, their wire format, the cgroup and
//! container setup protocols, the per-task execution state machine and the
//! result cache. Every function here carries a contract checked by Verus;
//! the surrounding process (HTTP surface, forking, syscalls) lives outside
//! the library and only executes the plans and decisions computed here.

pub mod error;
pub mod text;
pub mod task;
pub mod result;
pub mod ident;
pub mod cgroup;
pub mod container;
pub mod runtime;
pub mod config;
pub mod service;
pub mod json;
pub mod codec;
pub mod cache;

use vstd::prelude::*;

verus! {

/// Interval, in milliseconds, between two polls of a running task.
pub const POLL_INTERVAL_MS: u64 = 100;

} // verus!
