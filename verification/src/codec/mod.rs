//! The wire format: every value is a list of its fields, each field a byte string or a list.

pub mod messages;
pub mod rlp;
