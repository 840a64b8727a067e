//! TGCloud: a cloud object store that uses a chat messaging backend as an
//! opaque blob-storage tier.
//!
//! The library is the verified transfer engine: chunk planning, bot selection
//! and round-robin assignment, retry and backoff policy, the two-layer
//! admission gates, the metadata catalog with its namespace invariants, and
//! the upload / download / delete / rename pipelines with integrity
//! verification. Network and disk I/O live outside the library and drive it
//! through plain values.

pub mod blob;
pub mod chunking;
pub mod config;
pub mod digest;
pub mod errors;
pub mod events;
pub mod gates;
pub mod models;
pub mod protocol;
pub mod retry;
pub mod storage;
pub mod roster;
pub mod service;
pub mod strutil;

use vstd::prelude::*;

verus! {

/// Fixed chunk ceiling: 256 MiB.
pub const CHUNK_SIZE: u64 = 268_435_456;

} // verus!
