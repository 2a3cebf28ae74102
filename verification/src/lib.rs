//! Logical replication consumer core: a `pgoutput` binary decoder with a
//! relation cache, LSN text handling, the replication session state machine,
//! and the progress/acknowledgement engine.
//!
//! Everything here is pure logic over plain values; the network loop and the
//! host-facing layer live outside this crate and call into it.

pub mod decoder;
pub mod errors;
pub mod lsn;
pub mod messages;
pub mod progress;
pub mod reader;
pub mod replication;
pub mod session;
pub mod utils;
pub mod values;
pub mod wire;
