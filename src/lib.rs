//! Backup coordination for a sharded transactional key-value store: the
//! range walker that splits a request over the locally-led regions, the
//! per-shard scan driver, and the assembly of one response per shard.
pub mod codec;
pub mod key;
pub mod name;
pub mod region;
pub mod range;
pub mod response;
pub mod scan;
pub mod task;
pub mod endpoint;
pub mod laws;
