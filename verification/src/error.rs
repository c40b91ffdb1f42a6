//! The closed error taxonomy of the layer, and the mapping from the
//! engine's sticky error word into it.

use crate::native::{NativeEngine, ERROR_FILE_NOT_FOUND};
use vstd::prelude::*;

verus! {

/// What went wrong inside a read, seek or extract call.
#[derive(Clone, Copy, Debug, PartialEq, Eq, Structural)]
pub enum IoDetail {
    /// A fixed-size read found fewer bytes than the record needs.
    UnexpectedEof { expected: u32, got: u32 },
    /// A plain read call failed with this engine code.
    ReadFailed { code: u32 },
    /// An extract loop stopped on this sticky engine code after `total`
    /// bytes had already been written to the sink.
    ExtractFailed { code: u32, total: usize },
    /// The caller's sink refused bytes.
    WriteFailed,
}

/// Everything this layer can report. "No more files" is deliberately not
/// here: an exhausted enumeration is an end of sequence, never an error.
#[derive(Clone, Copy, Debug, PartialEq, Eq, Structural)]
pub enum CascError {
    /// A read/write/seek-level failure, with its detail.
    Io(IoDetail),
    /// The storage path cannot be encoded for the engine.
    InvalidPath,
    /// An entry name is not valid text, or cannot be encoded.
    InvalidFileName,
    /// The engine's specific "not found" code.
    FileNotFound,
    /// The storage path is not representable as the required text.
    NonUtf8,
    /// Any other engine code, preserved for diagnostics.
    Code(u32),
}

/// How an engine code reads as a [`CascError`]: the specific "not found"
/// code gets its own variant, everything else is preserved as a raw code.
pub open spec fn error_from_code(code: u32) -> CascError {
    if code == ERROR_FILE_NOT_FOUND {
        CascError::FileNotFound
    } else {
        CascError::Code(code)
    }
}

impl CascError {
    /// Read the engine's sticky error word and map it.
    pub fn from_last_error(engine: &NativeEngine) -> (r: Self)
        ensures
            r == error_from_code(engine.last_error),
    {
        let code = engine.get_last_error();
        if code == ERROR_FILE_NOT_FOUND {
            CascError::FileNotFound
        } else {
            CascError::Code(code)
        }
    }
}

} // verus!
