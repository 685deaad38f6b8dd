//! The persisted watermark: one 64-bit timestamp, stored as eight
//! little-endian bytes so that the file reads the same on every machine.

use vstd::bytes::{
    lemma_auto_spec_u64_to_from_le_bytes, spec_u64_from_le_bytes, spec_u64_to_le_bytes,
    u64_from_le_bytes, u64_to_le_bytes,
};
use crate::common::log::Timestamp;
use vstd::prelude::*;

verus! {

/// Number of bytes a stored checkpoint occupies.
pub const CHECKPOINT_LEN: usize = 8;

/// Why stored checkpoint bytes could not be read back.
#[derive(Debug, Clone, Copy, PartialEq, Eq, Structural)]
pub enum CheckpointError {
    /// The stored value does not have exactly eight bytes.
    WrongLength { found: usize },
}

/// The bytes that stand for `time` on disk.
pub open spec fn encoded(time: Timestamp) -> Seq<u8> {
    spec_u64_to_le_bytes(time)
}

/// What a reader makes of the stored bytes, `None` standing for "no file".
pub open spec fn loaded(stored: Option<Seq<u8>>) -> Result<Timestamp, CheckpointError> {
    match stored {
        None => Ok(0),
        Some(bytes) => if bytes.len() == CHECKPOINT_LEN {
            Ok(spec_u64_from_le_bytes(bytes))
        } else {
            Err(CheckpointError::WrongLength { found: bytes.len() as usize })
        },
    }
}

/// The two files a store works with, as they are on disk: the checkpoint
/// that readers load, and the file in which the next value is staged.
pub struct CheckpointFiles {
    pub current: Option<Seq<u8>>,
    pub staged: Option<Seq<u8>>,
}

/// How far a store has come when the process stops.
pub enum StoreProgress {
    /// Nothing was written.
    NotStarted,
    /// The first `written` bytes of the new value are in the staged file.
    Staging { written: nat },
    /// The staged file holds the new value in full.
    Staged,
    /// The staged file was renamed over the checkpoint.
    Promoted,
}

/// The files on disk if a store of `time` stops at `progress`. A store
/// writes the whole value to the staged file and then renames that file over
/// the checkpoint; the rename replaces the checkpoint in one step.
pub open spec fn files_during(
    before: CheckpointFiles,
    time: Timestamp,
    progress: StoreProgress,
) -> CheckpointFiles {
    match progress {
        StoreProgress::NotStarted => before,
        StoreProgress::Staging { written } => CheckpointFiles {
            current: before.current,
            staged: Some(
                encoded(time).take(
                    if written < CHECKPOINT_LEN {
                        written as int
                    } else {
                        CHECKPOINT_LEN as int
                    },
                ),
            ),
        },
        StoreProgress::Staged => CheckpointFiles {
            current: before.current,
            staged: Some(encoded(time)),
        },
        StoreProgress::Promoted => CheckpointFiles { current: Some(encoded(time)), staged: None },
    }
}

/// Encodes a timestamp for storage.
pub fn encode(time: Timestamp) -> (bytes: Vec<u8>)
    ensures
        bytes@ == encoded(time),
        bytes@.len() == CHECKPOINT_LEN,
{
    u64_to_le_bytes(time)
}

/// Reads a checkpoint back. A missing file means that nothing was forwarded
/// yet, so collection starts from the epoch.
pub fn load(stored: Option<&[u8]>) -> (result: Result<Timestamp, CheckpointError>)
    ensures
        result == loaded(
            match stored {
                Some(bytes) => Some(bytes@),
                None => None,
            },
        ),
{
    match stored {
        None => Ok(0),
        Some(bytes) => {
            if bytes.len() == CHECKPOINT_LEN {
                Ok(u64_from_le_bytes(bytes))
            } else {
                Err(CheckpointError::WrongLength { found: bytes.len() })
            }
        },
    }
}

/// What was stored is what a fresh reader loads, and a reader that finds
/// nothing starts at zero.
pub proof fn lemma_store_then_load(time: Timestamp)
    ensures
        loaded(Some(encoded(time))) == Ok::<Timestamp, CheckpointError>(time),
        loaded(None) == Ok::<Timestamp, CheckpointError>(0),
{
    lemma_auto_spec_u64_to_from_le_bytes();
}

/// A store is atomic: wherever it stops, a reader loads the value from
/// before the store or the new one, never a part of it, and once the store
/// is through the reader loads the new one.
pub proof fn lemma_store_is_atomic(before: CheckpointFiles, time: Timestamp, progress: StoreProgress)
    ensures
        loaded(files_during(before, time, progress).current) == loaded(before.current) || loaded(
            files_during(before, time, progress).current,
        ) == Ok::<Timestamp, CheckpointError>(time),
        progress is Promoted ==> loaded(files_during(before, time, progress).current) == Ok::<
            Timestamp,
            CheckpointError,
        >(time),
{
    lemma_auto_spec_u64_to_from_le_bytes();
}

} // verus!
