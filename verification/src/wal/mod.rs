//! What the write-ahead log records.

pub mod wal_type;
