use vstd::prelude::*;

verus! {

/// Why a request was refused as a protocol violation.
#[derive(Debug, Clone, Copy, PartialEq, Eq, Structural)]
pub enum InvalidReason {
    /// A chunk carried no bytes.
    ZeroLength,
    /// A chunk that is not the last one arrived without a stream id.
    MissingStreamId,
    /// A stream id was given for which no upload is in progress.
    NoSession,
    /// The chunk's offset is not the one the stream expects next.
    OffsetMismatch { expected: u64, actual: u64 },
    /// The chunk would carry the object past the largest offset.
    OffsetOverflow,
    /// A read range starts past the end of the object.
    RangeStartPastEnd { start: u64, len: u64 },
}

/// The errors of the store.
#[derive(Debug, Clone, Copy, PartialEq, Eq, Structural)]
pub enum BlobError {
    /// The caller's identity has no registered configuration.
    NotConfigured,
    /// The container or object does not exist.
    NotFound,
    /// The caller broke the protocol.
    InvalidRequest(InvalidReason),
    /// The filesystem refused an operation.
    IoError,
}

impl BlobError {
    /// True for the errors that are the caller's fault and must not be retried.
    pub fn is_caller_error(&self) -> (r: bool)
        ensures
            r == (*self is NotConfigured || *self is InvalidRequest),
    {
        match self {
            BlobError::NotConfigured => true,
            BlobError::InvalidRequest(_) => true,
            _ => false,
        }
    }
}

} // verus!
