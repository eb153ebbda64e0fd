//! The verification outcome and its mapping to the caller's result type.

use vstd::prelude::*;

verus! {

/// Why a probe failed.
#[derive(Clone, Copy, Debug, PartialEq, Eq, Structural)]
pub enum FailureReason {
    /// The probe exceeded its allotted wait time.
    Timeout,
    /// The peer disconnected, answered with something unusable, or the
    /// connection attempt itself failed.
    ConnectionClosed,
    /// The peer broke the framing of the message protocol.
    ProtocolError,
}

/// The typed error that `verify` hands its caller.
#[derive(Clone, Copy, Debug, PartialEq, Eq, Structural)]
pub enum VerificationError {
    /// The listener could not acquire the requested port; no probe could
    /// ever succeed, so the whole verification is abandoned.
    BindFailed,
    Timeout,
    ConnectionClosed,
    ProtocolError,
}

/// The error `verify` reports for a probe that failed for `reason`.
pub open spec fn error_of_reason(reason: FailureReason) -> VerificationError {
    match reason {
        FailureReason::Timeout => VerificationError::Timeout,
        FailureReason::ConnectionClosed => VerificationError::ConnectionClosed,
        FailureReason::ProtocolError => VerificationError::ProtocolError,
    }
}

/// Maps a probe's failure reason to the caller-facing error.
pub fn failure_to_error(reason: FailureReason) -> (e: VerificationError)
    ensures
        e == error_of_reason(reason),
{
    match reason {
        FailureReason::Timeout => VerificationError::Timeout,
        FailureReason::ConnectionClosed => VerificationError::ConnectionClosed,
        FailureReason::ProtocolError => VerificationError::ProtocolError,
    }
}

} // verus!
