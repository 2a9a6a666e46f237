//! The store's own logic around its key-value database.
pub mod changed_keys;
pub mod diff_state;
pub mod gc_iterator;
pub mod errors;
pub mod writes;
pub mod keys_around;
pub mod diff_records;
