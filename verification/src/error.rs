//! Failure classification for a transfer.

use vstd::prelude::*;

verus! {

/// The classes of failure a transfer can end in.
#[derive(Clone, Copy, Debug, PartialEq, Eq, Structural)]
pub enum ErrorKind {
    /// The transfer configuration cannot be honoured: a size limit is zero,
    /// the limits contradict each other, or the source reports no upper
    /// bound on its size.
    InvalidConfiguration,
    /// The source could not be opened or its size could not be determined.
    SourceUnreadable,
    /// The object does not fit the configured part limits.
    SizeUnsupported,
    /// The source's length or checksum drifted after it was opened.
    SourceMutated,
    /// The transport failed to move one part.
    PartTransportError,
    /// The digest the transport reported for a part differs from the local one.
    PartChecksumMismatch,
    /// The remote session could not be opened, completed or used.
    SessionError,
    /// The caller asked for the transfer to stop, or its deadline passed.
    Cancelled,
}

impl ErrorKind {
    /// Only a transport failure or a digest mismatch of a single part may be
    /// tried again; every other class ends the transfer.
    pub open spec fn retryable(self) -> bool {
        self == ErrorKind::PartTransportError || self == ErrorKind::PartChecksumMismatch
    }

    /// Whether a part that failed this way may be submitted again.
    pub fn is_retryable(self) -> (r: bool)
        ensures
            r == self.retryable(),
    {
        match self {
            ErrorKind::PartTransportError => true,
            ErrorKind::PartChecksumMismatch => true,
            _ => false,
        }
    }
}

/// The single terminal failure of a transfer: its class and, where one part
/// triggered it, that part's number.
#[derive(Clone, Copy, Debug, PartialEq, Eq, Structural)]
pub struct TransferError {
    pub kind: ErrorKind,
    pub part_number: Option<u32>,
}

impl TransferError {
    /// A failure of the transfer as a whole.
    pub fn whole(kind: ErrorKind) -> (e: TransferError)
        ensures
            e == (TransferError { kind, part_number: None }),
    {
        TransferError { kind, part_number: None }
    }

    /// A failure triggered by the part numbered `part_number`.
    pub fn of_part(kind: ErrorKind, part_number: u32) -> (e: TransferError)
        ensures
            e == (TransferError { kind, part_number: Some(part_number) }),
    {
        TransferError { kind, part_number: Some(part_number) }
    }
}

} // verus!
