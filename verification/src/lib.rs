//! Verified core of a cache broker that keeps large files in a chat backend.
//!
//! The crate holds the decisions of the broker and none of its I/O: the
//! object index, the captions, the rotation over backend identities, the
//! staging cache of hot copies, the coordinator that walks one request
//! through its collaborators, and the batch job that warms the cache.

pub mod bots;
pub mod catalog;
pub mod config;
pub mod coordinator;
pub mod hot_copy;
pub mod model;
pub mod paging;
pub mod prewarm;
pub mod records;
pub mod repository;
pub mod text;
pub mod transfer;
pub mod window;
