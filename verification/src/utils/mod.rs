//! Building blocks of the state: the authority list, a map keyed by byte strings, and words.

pub mod auth_manage;
pub mod bitmap;
pub mod byte_map;
pub mod seq_find;
pub mod text;
