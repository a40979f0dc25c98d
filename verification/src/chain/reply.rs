//! Answers of an HTTP service.
use vstd::prelude::*;
use vstd::string::*;

verus! {

/// What came back from a request.
#[derive(Debug)]
pub enum Reply<T> {
    /// No answer came.
    Failed,
    /// An answer with a status outside 200 to 299, by its code, its status line and its
    /// text.
    Refused { code: u16, status: String, text: String },
    /// An answer that could not be read as what was asked for.
    Unreadable,
    Read { body: T },
}

/// Why a reply to `service` holds nothing, in words.
pub open spec fn refusal<T>(reply: Reply<T>, service: Seq<char>) -> Seq<char> {
    match reply {
        Reply::Failed => service + " request failed"@,
        Reply::Refused { code: _, status, text } => service + " returned "@ + status@ + ": "@ + text@,
        _ => service + " JSON parse failed"@,
    }
}

/// What a service said, or why it said nothing.
pub fn read_reply<T>(reply: Reply<T>, service: &str) -> (r: Result<T, String>)
    ensures
        match (reply, r) {
            (Reply::Read { body }, Ok(v)) => v == body,
            (Reply::Read { .. }, Err(_)) => false,
            (_, Ok(_)) => false,
            (_, Err(e)) => e@ == refusal(reply, service@),
        },
{
    let mut said = String::from_str(service);
    match reply {
        Reply::Failed => {
            said.append(" request failed");
            Err(said)
        },
        Reply::Refused { code: _, status, text } => {
            said.append(" returned ");
            said.append(status.as_str());
            said.append(": ");
            said.append(text.as_str());
            Err(said)
        },
        Reply::Unreadable => {
            said.append(" JSON parse failed");
            Err(said)
        },
        Reply::Read { body } => Ok(body),
    }
}

} // verus!
