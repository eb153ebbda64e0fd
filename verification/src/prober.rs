//! The prober: the connecting side of the handshake.
//!
//! The prober is the one actor with real states. Each probe runs the machine
//! `Connecting -> Connected -> AwaitingAck -> {Verified | Failed}` from its
//! initial state; the terminal states absorb every further event, so the
//! first disqualifying event ends the probe for good. The loop that drives
//! the socket feeds each observed event into [`probe_step`] and stops at a
//! terminal state.

use vstd::prelude::*;

use crate::outcome::FailureReason;
use crate::protocol::ack_token;
use crate::protocol::text_eq;
use crate::protocol::ack_token_text;

verus! {

/// One state of the probe's machine.
#[derive(Clone, Copy, Debug, PartialEq, Eq, Structural)]
pub enum ProberState {
    /// The outbound connection is being opened.
    Connecting,
    /// The connection stands; the request token has not been sent yet.
    Connected,
    /// The request token was sent; the probe waits for the first inbound
    /// message, racing the timeout.
    AwaitingAck,
    /// Terminal: the acknowledge token arrived before the timeout.
    Verified,
    /// Terminal: the probe failed for the carried reason.
    Failed(FailureReason),
}

/// One event observed by the probe's driving loop.
#[derive(Debug)]
pub enum ProbeEvent {
    /// The outbound connection attempt failed.
    ConnectFailed,
    /// The outbound connection was established.
    ConnectSucceeded,
    /// The request token was written to the connection.
    RequestSent,
    /// The timeout elapsed before the next inbound message.
    TimeoutFired,
    /// A text message with the carried content arrived.
    TextReceived(String),
    /// A non-text message arrived.
    NonTextReceived,
    /// The connection closed, or reading from it failed.
    StreamEnded,
}

impl ProberState {
    /// A state the machine never leaves.
    pub open spec fn spec_is_terminal(self) -> bool {
        match self {
            ProberState::Verified => true,
            ProberState::Failed(_) => true,
            _ => false,
        }
    }

    /// Whether the probe has ended, in `Verified` or in a failure.
    #[verifier::when_used_as_spec(spec_is_terminal)]
    pub fn is_terminal(self) -> (r: bool)
        ensures
            r == self.spec_is_terminal(),
    {
        match self {
            ProberState::Verified => true,
            ProberState::Failed(_) => true,
            _ => false,
        }
    }
}

/// The transition relation of the probe's machine. Events that cannot occur
/// in a state leave the state unchanged; terminal states absorb everything.
pub open spec fn spec_probe_step(s: ProberState, e: ProbeEvent) -> ProberState {
    match s {
        ProberState::Connecting => match e {
            ProbeEvent::ConnectFailed => ProberState::Failed(FailureReason::ConnectionClosed),
            ProbeEvent::ConnectSucceeded => ProberState::Connected,
            _ => s,
        },
        ProberState::Connected => match e {
            ProbeEvent::RequestSent => ProberState::AwaitingAck,
            _ => s,
        },
        ProberState::AwaitingAck => match e {
            ProbeEvent::TimeoutFired => ProberState::Failed(FailureReason::Timeout),
            ProbeEvent::TextReceived(t) => if t@ == ack_token() {
                ProberState::Verified
            } else {
                ProberState::Failed(FailureReason::ConnectionClosed)
            },
            ProbeEvent::NonTextReceived => ProberState::Failed(FailureReason::ConnectionClosed),
            ProbeEvent::StreamEnded => ProberState::Failed(FailureReason::ConnectionClosed),
            _ => s,
        },
        ProberState::Verified => s,
        ProberState::Failed(_) => s,
    }
}

/// Advances the probe's machine by one observed event.
pub fn probe_step(s: ProberState, e: &ProbeEvent) -> (n: ProberState)
    ensures
        n == spec_probe_step(s, *e),
{
    match s {
        ProberState::Connecting => match e {
            ProbeEvent::ConnectFailed => ProberState::Failed(FailureReason::ConnectionClosed),
            ProbeEvent::ConnectSucceeded => ProberState::Connected,
            _ => s,
        },
        ProberState::Connected => match e {
            ProbeEvent::RequestSent => ProberState::AwaitingAck,
            _ => s,
        },
        ProberState::AwaitingAck => match e {
            ProbeEvent::TimeoutFired => ProberState::Failed(FailureReason::Timeout),
            ProbeEvent::TextReceived(t) => if text_eq(t.as_str(), ack_token_text()) {
                ProberState::Verified
            } else {
                ProberState::Failed(FailureReason::ConnectionClosed)
            },
            ProbeEvent::NonTextReceived => ProberState::Failed(FailureReason::ConnectionClosed),
            ProbeEvent::StreamEnded => ProberState::Failed(FailureReason::ConnectionClosed),
            _ => s,
        },
        ProberState::Verified => s,
        ProberState::Failed(_) => s,
    }
}

/// The state the machine reaches from [`ProberState::Connecting`] after the
/// given events, in order.
pub open spec fn spec_probe_run(events: Seq<ProbeEvent>) -> ProberState
    decreases events.len(),
{
    if events.len() == 0 {
        ProberState::Connecting
    } else {
        spec_probe_step(spec_probe_run(events.drop_last()), events.last())
    }
}

/// Runs a fresh probe machine over the given events, in order.
pub fn run_probe(events: &Vec<ProbeEvent>) -> (s: ProberState)
    ensures
        s == spec_probe_run(events@),
{
    let mut s = ProberState::Connecting;
    let n = events.len();
    let mut i: usize = 0;
    while i < n
        invariant
            n == events@.len(),
            i <= n,
            s == spec_probe_run(events@.take(i as int)),
        decreases n - i,
    {
        s = probe_step(s, &events[i]);
        proof {
            assert(events@.take(i + 1 as int).drop_last() =~= events@.take(i as int));
            assert(events@.take(i + 1 as int).last() == events@[i as int]);
        }
        i = i + 1;
    }
    proof {
        assert(events@.take(n as int) =~= events@);
    }
    s
}

/// The machine reaches `Verified` only through the acknowledge token: a
/// step ends in `Verified` exactly when it started there, or when the probe
/// was awaiting the acknowledgement and a text message equal to the
/// acknowledge token arrived. In particular, the timeout event never
/// produces `Verified`.
pub proof fn lemma_verified_only_by_ack(s: ProberState, e: ProbeEvent)
    ensures
        spec_probe_step(s, e) == ProberState::Verified <==> (s == ProberState::Verified || (s
            == ProberState::AwaitingAck && (e matches ProbeEvent::TextReceived(t) && t@
            == ack_token()))),
{
}

/// A correctly responding listener makes the probe succeed: by the
/// listener's contract its reply to the request token is the acknowledge
/// token, and a probe that connects, sends the request and receives such a
/// reply ends in `Verified` — through the message alone, with no timeout
/// event involved.
pub proof fn lemma_correct_listener_verifies(reply: String)
    requires
        reply@ == ack_token(),
    ensures
        spec_probe_run(
            seq![
                ProbeEvent::ConnectSucceeded,
                ProbeEvent::RequestSent,
                ProbeEvent::TextReceived(reply),
            ],
        ) == ProberState::Verified,
{
    let events = seq![
        ProbeEvent::ConnectSucceeded,
        ProbeEvent::RequestSent,
        ProbeEvent::TextReceived(reply),
    ];
    assert(events.drop_last().drop_last().drop_last() =~= Seq::<ProbeEvent>::empty());
    assert(events.drop_last().drop_last() =~= seq![ProbeEvent::ConnectSucceeded]);
    assert(events.drop_last() =~= seq![ProbeEvent::ConnectSucceeded, ProbeEvent::RequestSent]);
    assert(events.drop_last().drop_last().last() == ProbeEvent::ConnectSucceeded);
    assert(events.drop_last().last() == ProbeEvent::RequestSent);
    assert(events.last() == ProbeEvent::TextReceived(reply));
    assert(spec_probe_run(events.drop_last().drop_last().drop_last()) == ProberState::Connecting);
    assert(spec_probe_run(events.drop_last().drop_last()) == ProberState::Connected);
    assert(spec_probe_run(events.drop_last()) == ProberState::AwaitingAck);
}

/// A probe against an address where nothing listens fails at the connection
/// attempt itself: the failed connect alone ends the machine in
/// `Failed(ConnectionClosed)`, with no timeout involved.
pub proof fn lemma_connect_failure_fails_promptly(events: Seq<ProbeEvent>)
    requires
        events.len() >= 1,
        events[0] matches ProbeEvent::ConnectFailed,
    ensures
        spec_probe_run(events) == ProberState::Failed(FailureReason::ConnectionClosed),
    decreases events.len(),
{
    if events.len() == 1 {
        assert(events.drop_last().len() == 0);
    } else {
        lemma_connect_failure_fails_promptly(events.drop_last());
    }
}

/// A first answer other than the acknowledge token ends the probe in a
/// failure, never in `Verified`, and the machine never leaves that failure:
/// there is no retrying within one probe.
pub proof fn lemma_mismatch_fails(t: String)
    requires
        t@ != ack_token(),
    ensures
        spec_probe_step(ProberState::AwaitingAck, ProbeEvent::TextReceived(t))
            == ProberState::Failed(FailureReason::ConnectionClosed),
{
}

/// Terminal states are final: no event moves the machine out of `Verified`
/// or out of a `Failed` state.
pub proof fn lemma_terminal_absorbs(s: ProberState, e: ProbeEvent)
    requires
        s.is_terminal(),
    ensures
        spec_probe_step(s, e) == s,
{
}

/// A listener that never answers leaves the probe to its timeout: with the
/// handshake under way, the timeout event ends the machine in
/// `Failed(Timeout)`.
pub proof fn lemma_timeout_fails(s: ProberState)
    requires
        s == ProberState::AwaitingAck,
    ensures
        spec_probe_step(s, ProbeEvent::TimeoutFired) == ProberState::Failed(FailureReason::Timeout),
{
}

/// The outcome of a probe is a function of its events alone: two probes over
/// the same events end in the same state, because each run starts from the
/// machine's initial state and nothing carries over between runs.
pub proof fn lemma_probe_runs_independent(e1: Seq<ProbeEvent>, e2: Seq<ProbeEvent>)
    requires
        e1 == e2,
    ensures
        spec_probe_run(e1) == spec_probe_run(e2),
{
}

} // verus!
