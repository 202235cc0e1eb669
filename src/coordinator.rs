//! The outcome of a whole send or receive: which transport serviced it, or
//! the error that ends it. A failure on the chosen transport is reported
//! with that transport's identity and is never retried on another one.
use vstd::prelude::*;
use crate::error::{FailureCause, FrameError, TransferError};
use crate::transport::TransportKind;

verus! {

pub open spec fn sent_status(kind: TransportKind) -> Seq<char> {
    "File sent via "@ + kind.spec_name()
}

pub open spec fn listening_status(kind: TransportKind) -> Seq<char> {
    "Receiver started using "@ + kind.spec_name()
}

/// "File sent via <transport>".
pub fn sent_message(kind: TransportKind) -> (r: String)
    ensures
        r@ == sent_status(kind),
{
    let mut s = String::from_str("File sent via ");
    s.append(kind.name());
    s
}

/// "Receiver started using <transport>".
pub fn listening_message(kind: TransportKind) -> (r: String)
    ensures
        r@ == listening_status(kind),
{
    let mut s = String::from_str("Receiver started using ");
    s.append(kind.name());
    s
}

/// The result of a send over the chosen transport `kind`.
pub fn conclude_send(kind: TransportKind, outcome: Result<(), FailureCause>) -> (r: Result<
    String,
    TransferError,
>)
    ensures
        outcome is Ok ==> r is Ok && r->Ok_0@ == sent_status(kind),
        outcome is Err ==> r == Err::<String, TransferError>(
            (TransferError::TransferFailed { transport: kind, cause: outcome->Err_0 }),
        ),
{
    match outcome {
        Ok(()) => Ok(sent_message(kind)),
        Err(cause) => Err(TransferError::TransferFailed { transport: kind, cause }),
    }
}

/// The result of a receive over the chosen transport `kind`.
pub fn conclude_receive(kind: TransportKind, outcome: Result<(), FailureCause>) -> (r: Result<
    String,
    TransferError,
>)
    ensures
        outcome is Ok ==> r is Ok && r->Ok_0@ == listening_status(kind),
        outcome is Err ==> r == Err::<String, TransferError>(
            (TransferError::TransferFailed { transport: kind, cause: outcome->Err_0 }),
        ),
{
    match outcome {
        Ok(()) => Ok(listening_message(kind)),
        Err(cause) => Err(TransferError::TransferFailed { transport: kind, cause }),
    }
}

/// A frame read from a stream of transport `kind`: its payload, or a failed
/// transfer whose cause is the incomplete frame.
pub fn received_payload(kind: TransportKind, frame: Result<Vec<u8>, FrameError>) -> (r: Result<
    Vec<u8>,
    TransferError,
>)
    ensures
        frame is Ok ==> r is Ok && r->Ok_0@ == frame->Ok_0@,
        frame is Err ==> r == Err::<Vec<u8>, TransferError>(
            (TransferError::TransferFailed {
                transport: kind,
                cause: FailureCause::Frame(frame->Err_0),
            }),
        ),
{
    match frame {
        Ok(p) => Ok(p),
        Err(e) => Err(TransferError::TransferFailed { transport: kind, cause: FailureCause::Frame(e) }),
    }
}

} // verus!
