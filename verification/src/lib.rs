//! Binlog decoding core: a bounded-memory byte source over numbered log
//! files, a fixed-width event-header codec with per-type payload decoders,
//! and a pull-based event stream that filters by event type, excludes
//! `db.table` pairs at event granularity, and follows file rotation.

pub mod codec;
pub mod events;
pub mod matcher;
pub mod reader;
pub mod stream;
