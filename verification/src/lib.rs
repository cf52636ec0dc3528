//! A byte-addressable window onto a file's contents.
//!
//! The engine reconciles a caller's arbitrary byte offset and length with the
//! platform's page-alignment requirement, tracks the padding this introduces,
//! and exposes bounds-checked views that translate logical indices to
//! physical ones. The views here work over an in-memory image of the file's
//! bytes; a platform binding performs the native mapping calls and reuses the
//! alignment and lifecycle decisions verified here.

use vstd::prelude::*;

mod align;
mod lifecycle;
mod map;

verus! {

pub use align::aligned_length_for;
pub use align::aligned_offset_for;
pub use align::padding_for;
pub use align::round_offset;
pub use lifecycle::acquired_handles;
pub use lifecycle::lemma_two_stage_no_leak;
pub use lifecycle::released_handles;
pub use lifecycle::retained_handles;
pub use lifecycle::two_stage_acquire;
pub use lifecycle::two_stage_outcome;
pub use lifecycle::two_stage_release;
pub use lifecycle::TwoStageOutcome;
pub use map::lemma_reopen_observes_write;
pub use map::lemma_shared_write_round_trip;
pub use map::lemma_whole_file_window;
pub use map::lemma_window_index;
pub use map::window;
pub use map::write_back;
pub use map::FileMap;
pub use map::FileMapMut;
pub use map::PAST_END_CODE;

/// A mapping request can fail before the platform is consulted (a zero
/// length) or because the platform refused the mapping (a wrapped native
/// error code).
#[derive(Clone, Copy, Debug, PartialEq, Eq, Structural)]
pub enum FileMapError {
    /// A zero-length mapping was requested: a caller-contract violation,
    /// detected before any native resource is touched.
    InvalidLength,
    /// The native mapping call failed; the payload is the platform's error
    /// code, reported without translation.
    OsError(i32),
}

pub type FileMapResult<T> = Result<T, FileMapError>;

/// Wraps a native error code as a failed result.
pub fn err<T>(code: i32) -> (r: FileMapResult<T>)
    ensures
        r == Err::<T, FileMapError>(FileMapError::OsError(code)),
{
    Err(FileMapError::OsError(code))
}

} // verus!
