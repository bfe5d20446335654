//! Coordination core of a gateway sharder: the framing codec that tags
//! outbound records with their shard id, the identify-queue pacing model,
//! the per-shard supervisor's decision logic, and configuration handling.
pub mod bridge;
pub mod codec;
pub mod config;
pub mod frame;
pub mod queue;
pub mod supervisor;
