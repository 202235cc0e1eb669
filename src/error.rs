use vstd::prelude::*;
use crate::transport::TransportKind;

verus! {

/// Why a length-prefixed frame could not be completed.
#[derive(Clone, Copy, Debug, PartialEq, Eq, Structural)]
pub enum FrameError {
    /// The stream closed before the eight header bytes arrived.
    ShortHeader { received: u64 },
    /// The stream closed before the declared number of payload bytes arrived.
    ShortPayload { expected: u64, received: u64 },
}

/// What went wrong beneath a failed transfer.
#[derive(Debug, PartialEq, Eq)]
pub enum FailureCause {
    /// A connection, channel or storage error, as the I/O layer described it.
    Io(String),
    /// The byte stream ended before the frame was complete.
    Frame(FrameError),
}

/// The ways a transfer can fail.
#[derive(Debug, PartialEq, Eq)]
pub enum TransferError {
    /// Every probe reported its transport unusable.
    NoTransportAvailable,
    /// A transfer on an available transport failed.
    TransferFailed { transport: TransportKind, cause: FailureCause },
    /// The peer connection never became connected within the bound.
    NegotiationTimeout { transport: TransportKind },
    /// An operation was invoked out of sequence.
    InvalidSessionState,
    /// An offer or answer could not be read; `detail` says why.
    MalformedDescription { transport: TransportKind, detail: String },
}

} // verus!
