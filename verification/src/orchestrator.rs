//! The orchestrator: one verification call.
//!
//! The orchestrator starts the listener on the address's port as
//! fire-and-forget background work, runs the prober against the address,
//! and returns exactly the prober's outcome to the caller. A listener that
//! cannot bind its port is fatal to the whole call, since no probe could
//! ever succeed. The driving of sockets and tasks happens outside; this
//! module fixes what result the caller sees for each way the call can end.

use vstd::prelude::*;

use crate::outcome::FailureReason;
use crate::outcome::VerificationError;
use crate::outcome::error_of_reason;
use crate::outcome::failure_to_error;
use crate::prober::ProberState;

verus! {

/// The result `verify` owes its caller once the probe has ended: success
/// exactly for a verified handshake, and otherwise the typed error carrying
/// the probe's failure reason.
pub fn verification_result(s: ProberState) -> (r: Result<(), VerificationError>)
    requires
        s.is_terminal(),
    ensures
        s == ProberState::Verified <==> r is Ok,
        forall|reason: FailureReason|
            s == ProberState::Failed(reason) ==> r == Result::<(), VerificationError>::Err(
                error_of_reason(reason),
            ),
{
    match s {
        ProberState::Verified => Ok(()),
        ProberState::Failed(reason) => Err(failure_to_error(reason)),
        _ => {
            proof {
                assert(false);
            }
            Err(VerificationError::ConnectionClosed)
        },
    }
}

/// The result `verify` owes its caller when the listener cannot bind the
/// address's port: the call is abandoned as failed, with no probe outcome
/// to report.
pub fn bind_failure_result() -> (r: Result<(), VerificationError>)
    ensures
        r == Result::<(), VerificationError>::Err(VerificationError::BindFailed),
{
    Err(VerificationError::BindFailed)
}

} // verus!
