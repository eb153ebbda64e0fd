//! The listener: the accepting side of the handshake.
//!
//! Each accepted connection gets an independent handler. The handler reads
//! text messages in order; the first one equal to the request token is
//! answered with exactly the acknowledge token, after which the connection
//! is closed and everything further is ignored. Any other content is
//! ignored and reading goes on. A handler that fails does so alone: its
//! error is classified as benign (ordinary peer noise, silently dropped) or
//! unexpected (reported to the observability sink), and either way no other
//! connection and not the accept loop is affected.

use vstd::prelude::*;

use crate::protocol::ack_token;
use crate::protocol::ack_token_text;
use crate::protocol::request_token;
use crate::protocol::request_token_text;
use crate::protocol::text_eq;

verus! {

/// What can go wrong inside one connection handler.
#[derive(Clone, Copy, Debug, PartialEq, Eq, Structural)]
pub enum ListenerError {
    /// The peer closed the connection.
    ConnectionClosed,
    /// The peer broke the framing of the message protocol.
    Protocol,
    /// The peer sent text that is not valid.
    InvalidText,
    /// Any other I/O or protocol error.
    Other,
}

/// How the listener treats a handler's error.
#[derive(Clone, Copy, Debug, PartialEq, Eq, Structural)]
pub enum ErrorClass {
    /// Ordinary peer noise: swallowed, no diagnostic output.
    Benign,
    /// A real fault: reported to the observability sink, but confined to
    /// its own handler.
    Unexpected,
}

/// An error is benign exactly when it reflects a peer disconnecting or
/// speaking the protocol badly.
pub open spec fn spec_classify(e: ListenerError) -> ErrorClass {
    match e {
        ListenerError::ConnectionClosed => ErrorClass::Benign,
        ListenerError::Protocol => ErrorClass::Benign,
        ListenerError::InvalidText => ErrorClass::Benign,
        ListenerError::Other => ErrorClass::Unexpected,
    }
}

/// Classifies a handler's error as benign or unexpected. New error kinds
/// must be deliberately categorized here rather than excluded by pattern.
pub fn classify_error(e: ListenerError) -> (c: ErrorClass)
    ensures
        c == spec_classify(e),
        c == ErrorClass::Benign <==> (e == ListenerError::ConnectionClosed || e
            == ListenerError::Protocol || e == ListenerError::InvalidText),
{
    match e {
        ListenerError::ConnectionClosed => ErrorClass::Benign,
        ListenerError::Protocol => ErrorClass::Benign,
        ListenerError::InvalidText => ErrorClass::Benign,
        ListenerError::Other => ErrorClass::Unexpected,
    }
}

/// The listener's answer to one inbound text message: exactly the
/// acknowledge token for the request token, and silence for everything
/// else. A reply also closes the connection.
pub fn listener_reply(msg: &str) -> (r: Option<String>)
    ensures
        match r {
            Some(t) => msg@ == request_token() && t@ == ack_token(),
            None => msg@ != request_token(),
        },
{
    if text_eq(msg, request_token_text()) {
        Some(ack_token_text().to_owned())
    } else {
        None
    }
}

/// Runs one connection handler over the text messages read from the
/// connection, in order. Returns every reply the handler sends and how
/// many messages it read before closing: the first message equal to the
/// request token is answered with the acknowledge token and nothing after
/// it is read; if none occurs, every message is read and nothing is sent.
pub fn handle_messages(msgs: &Vec<String>) -> (r: (Vec<String>, usize))
    ensures
        (exists|i: int| 0 <= i < msgs@.len() && msgs@[i]@ == request_token()) ==> (r.0@.len() == 1
            && r.0@[0]@ == ack_token() && 1 <= r.1 <= msgs@.len() && msgs@[r.1 - 1]@
            == request_token() && (forall|j: int|
            0 <= j < r.1 - 1 ==> msgs@[j]@ != request_token())),
        (forall|i: int| 0 <= i < msgs@.len() ==> msgs@[i]@ != request_token()) ==> (r.0@.len() == 0
            && r.1 == msgs@.len()),
{
    let mut replies: Vec<String> = Vec::new();
    let n = msgs.len();
    let mut k: usize = 0;
    while k < n
        invariant
            n == msgs@.len(),
            k <= n,
            replies@.len() == 0,
            forall|j: int| 0 <= j < k ==> msgs@[j]@ != request_token(),
        decreases n - k,
    {
        match listener_reply(msgs[k].as_str()) {
            Some(t) => {
                replies.push(t);
                assert(msgs@[k as int]@ == request_token());
                return (replies, k + 1);
            },
            None => {},
        }
        k = k + 1;
    }
    (replies, n)
}

} // verus!
