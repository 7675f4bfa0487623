use vstd::prelude::*;

verus! {

/// The ways a codec operation can fail. Every fallible operation returns one
/// of these as a value; none of the library's functions panic.
#[derive(Debug, Clone, Copy, PartialEq, Eq, Structural)]
pub enum PngError {
    /// A chunk type string held a character outside `A-Z`/`a-z`, or was not
    /// exactly four characters long.
    InvalidChunkType,
    /// The CRC recomputed over a parsed chunk's type and data disagreed with
    /// the CRC stored in the buffer.
    ChecksumMismatch,
    /// Fewer bytes were available than the declared data length plus the
    /// twelve framing bytes require.
    TruncatedInput,
    /// The buffer did not begin with the eight PNG signature bytes.
    InvalidSignature,
    /// A chunk's data was requested as text but is not valid UTF-8.
    InvalidUtf8,
    /// No chunk of the requested type is in the container.
    ChunkNotFound,
}

} // verus!
