//! The handshake protocol's two tokens, and text comparison against them.
//!
//! Exactly two message contents are meaningful on the wire: the request
//! token, sent by the prober, and the acknowledge token, sent back by the
//! listener. Both are fixed text values.

use vstd::prelude::*;

verus! {

/// The text the prober sends to open the handshake.
pub open spec fn request_token() -> Seq<char> {
    "check"@
}

/// The text the listener sends back to acknowledge the request.
pub open spec fn ack_token() -> Seq<char> {
    "ok"@
}

/// The request token as an executable string.
pub fn request_token_text() -> (r: &'static str)
    ensures
        r@ == request_token(),
{
    "check"
}

/// The acknowledge token as an executable string.
pub fn ack_token_text() -> (r: &'static str)
    ensures
        r@ == ack_token(),
{
    "ok"
}

/// Character-for-character equality of two text values.
pub fn text_eq(a: &str, b: &str) -> (r: bool)
    ensures
        r <==> a@ == b@,
{
    let n = a.unicode_len();
    let m = b.unicode_len();
    if n != m {
        assert(a@ != b@) by {
            assert(a@.len() != b@.len());
        }
        return false;
    }
    let mut i: usize = 0;
    while i < n
        invariant
            n == a@.len(),
            n == b@.len(),
            i <= n,
            forall|j: int| 0 <= j < i ==> a@[j] == b@[j],
        decreases n - i,
    {
        if a.get_char(i) != b.get_char(i) {
            assert(a@ != b@) by {
                assert(a@[i as int] != b@[i as int]);
            }
            return false;
        }
        i = i + 1;
    }
    assert(a@ =~= b@);
    true
}

} // verus!
