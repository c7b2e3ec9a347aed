//! A multipart object-transfer engine.
//!
//! A local data source is cut into size-bounded parts, each part is moved to
//! or from a remote object store as an independently retryable unit, and the
//! results are put back together in part-number order. The arithmetic, the
//! state machines and the validation rules live here and are proved against
//! their contracts; the network, the file system and the clock stay with the
//! caller.

pub mod attributes;
pub mod backoff;
pub mod canary;
pub mod checksum;
pub mod coordinator;
pub mod error;
pub mod job;
pub mod planner;
pub mod plugin;
pub mod release_tag;
pub mod scheduler;
pub mod scheduler_laws;
pub mod stream;
pub mod types;
