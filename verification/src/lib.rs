//! Diffbelt: an immutable key-value store whose records are versioned by
//! generations, with diffs between generations.
pub mod bytes;
pub mod common;
pub mod record_key;
pub mod diff_logic;
pub mod str_serialization;
pub mod http;
pub mod raw_db;
pub mod messages;
