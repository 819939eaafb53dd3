//! The one remote operation: evaluate Lua, get text back.
//!
//! The window manager answers an evaluation with whatever the code returns,
//! and only text travels back well. So every expression is sent inside a
//! frame that returns it through Lua's `tostring`.

use vstd::prelude::*;
use vstd::string::*;
use crate::text::{lemma_cancel_back, lemma_cancel_front};

verus! {

/// The code that is sent to have `expression` evaluated and rendered as
/// text.
pub open spec fn request_text(expression: Seq<char>) -> Seq<char> {
    "return tostring("@ + expression + ")"@
}

/// Requests that are equal ask for the same expression.
pub proof fn lemma_request_text_injective(a: Seq<char>, b: Seq<char>)
    requires
        request_text(a) == request_text(b),
    ensures
        a == b,
{
    lemma_cancel_back("return tostring("@ + a, "return tostring("@ + b, ")"@);
    lemma_cancel_front("return tostring("@, a, b);
}

/// The code to send to have `expression` evaluated and rendered as text.
pub fn evaluation_request(expression: &str) -> (request: String)
    ensures
        request@ == request_text(expression@),
{
    let mut request = String::from_str("return tostring(");
    request.append(expression);
    request.append(")");
    request
}

} // verus!
