//! Error types of the request handlers, their mapping to HTTP status codes,
//! and the rendering of an error's causal chain.
use vstd::prelude::*;

verus! {

/// The text of a causal chain below its top-level message: one
/// `Caused by:` block per cause, outermost first.
pub open spec fn causes_text(causes: Seq<Seq<char>>) -> Seq<char>
    decreases causes.len(),
{
    if causes.len() == 0 {
        Seq::empty()
    } else {
        causes_text(causes.drop_last()) + "Caused by:\n\t"@ + causes.last() + "\n"@
    }
}

/// The full rendering of an error whose message is `top` and whose sources,
/// outermost first, have the messages `causes`.
pub open spec fn chain_text(top: Seq<char>, causes: Seq<Seq<char>>) -> Seq<char> {
    top + "\n\n"@ + causes_text(causes)
}

/// Renders an error and the chain of its causes, one per block.
pub fn error_chain_fmt(top: &str, causes: &Vec<String>) -> (r: String)
    ensures
        r@ == chain_text(top@, causes@.map_values(|c: String| c@)),
{
    let mut out = String::from_str(top);
    out.append("\n\n");
    let mut i: usize = 0;
    while i < causes.len()
        invariant
            i <= causes@.len(),
            out@ == top@ + "\n\n"@ + causes_text(
                causes@.subrange(0, i as int).map_values(|c: String| c@),
            ),
        decreases causes@.len() - i,
    {
        proof {
            let prev = causes@.subrange(0, i as int).map_values(|c: String| c@);
            let next = causes@.subrange(0, i + 1).map_values(|c: String| c@);
            assert(next.drop_last() =~= prev);
            assert(next.last() == causes@[i as int]@);
        }
        out.append("Caused by:\n\t");
        out.append(causes[i].as_str());
        out.append("\n");
        i = i + 1;
    }
    proof {
        assert(causes@.subrange(0, causes@.len() as int) =~= causes@);
    }
    out
}

/// Failure of the subscription endpoint.
pub enum SubscribeError {
    /// The submitted form was refused; the message is shown to the caller.
    ValidationError(String),
    /// Anything else; the message is the internal cause chain.
    UnexpectedError(String),
}

impl SubscribeError {
    pub fn status_code(&self) -> (r: u16)
        ensures
            r == (if self is ValidationError { 400u16 } else { 500u16 }),
    {
        match self {
            SubscribeError::ValidationError(_) => 400,
            SubscribeError::UnexpectedError(_) => 500,
        }
    }

    /// What the caller is told: the validation message, or a generic text
    /// that hides internal detail.
    pub fn message(&self) -> (r: String)
        ensures
            self matches SubscribeError::ValidationError(m) ==> r@ == m@,
            self is UnexpectedError ==> r@ == "Unexpected internal server error."@,
    {
        match self {
            SubscribeError::ValidationError(m) => m.clone(),
            SubscribeError::UnexpectedError(_) => String::from_str("Unexpected internal server error."),
        }
    }
}

/// A storage failure while persisting a confirmation token.
pub struct StoreTokenError {
    pub cause: String,
}

impl StoreTokenError {
    pub fn status_code(&self) -> (r: u16)
        ensures
            r == 500,
    {
        500
    }

    pub fn message(&self) -> (r: String)
        ensures
            r@ == "A database error was encountered while trying to store a subscription token"@,
    {
        String::from_str("A database error was encountered while trying to store a subscription token")
    }
}

/// Failure of the confirmation endpoint other than its expected outcomes.
pub enum ConfirmError {
    UnexpectedError(String),
}

impl ConfirmError {
    pub fn status_code(&self) -> (r: u16)
        ensures
            r == 500,
    {
        500
    }

    /// What the caller is told: a generic text that hides the cause.
    pub fn message(&self) -> (r: String)
        ensures
            r@ == "Unexpected internal server error."@,
    {
        String::from_str("Unexpected internal server error.")
    }
}

} // verus!
