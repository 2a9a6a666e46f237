//! The answers of the task that keeps the generations of collections.
use vstd::prelude::*;

use crate::raw_db::errors::RawDbError;

verus! {

/// Why a generation id could not be locked for a write.
pub enum LockManualGenerationIdError {
    GenerationIdMismatch,
    PutPhantomWithoutGenerationId,
    NoSuchCollection,
}

/// Why a manual generation could not be started.
pub enum StartManualGenerationIdError {
    OutdatedGeneration,
    RawDb(RawDbError),
    NoSuchCollection,
}

/// Why a manual generation could not be committed or aborted.
pub enum CommitManualGenerationError {
    OutdatedGeneration,
    RawDb(RawDbError),
    NoSuchCollection,
}

} // verus!
