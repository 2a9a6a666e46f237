//! The HTTP face of the store: how requests are read and answers written.
pub mod encoding;
pub mod errors;
pub mod data;
pub mod request_context;
pub mod response;
pub mod common_groups;
pub mod validation;
pub mod query;
pub mod error_response;
pub mod collection;
pub mod put_many;
pub mod flatbuffers;
pub mod read_body;
pub mod requests;
