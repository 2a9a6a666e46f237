//! Why an operation on the store failed.
use vstd::prelude::*;

use crate::diff_logic::DiffLogicError;

verus! {

/// Why an operation on the store failed.
#[derive(Debug)]
pub enum RawDbError {
    /// The database reported an error, with its message.
    RocksDb(String),
    CfHandle,
    NoSuchPhantom,
    InvalidRecordKey,
    InvalidGenerationKey,
    InvalidGenerationId,
    CursorDidNotFoundRecord,
    DiffNoChangedKeyRecord(&'static str),
    DiffLogic(DiffLogicError),
    Unspecified(String),
}

} // verus!
