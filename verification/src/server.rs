//! Decisions of the request-serving boundary.
//!
//! The boundary parses requests, serves the live-update socket and talks
//! to the storage engine; those surfaces stay outside the library. What
//! is decided here: how a callback's outcome turns into a reply, what a
//! broadcast's per-recipient failures amount to, which listing window a
//! query asks for, and which source a channel name resolves to.

use vstd::prelude::*;

use crate::report::Recording;

verus! {

/// A channel's entry in the source registry.
pub struct SourceEntry<'a> {
    pub id: usize,
    pub url_prefix: &'a str,
}

/// Messages pushed to clients.
pub enum ServerMessage {
    /// An error the client should see.
    Error(String),
    /// A persisted row changed.
    DatabaseUpdate(Recording),
}

/// An error from a message handler or callback.
pub enum CallbackError {
    /// An error that should not be returned to the client.
    Silent(String),
    /// An error that should be returned to the client.
    Loud(String),
}

impl CallbackError {
    /// The error's description.
    pub fn message(&self) -> (m: &str)
        ensures
            m@ == match *self {
                CallbackError::Silent(e) => e@,
                CallbackError::Loud(e) => e@,
            },
    {
        match self {
            CallbackError::Silent(e) => e.as_str(),
            CallbackError::Loud(e) => e.as_str(),
        }
    }
}

/// Default errors are loud.
impl From<String> for CallbackError {
    fn from(value: String) -> (e: Self) {
        CallbackError::Loud(value)
    }
}

impl vstd::std_specs::convert::FromSpecImpl<String> for CallbackError {
    open spec fn obeys_from_spec() -> bool {
        true
    }

    open spec fn from_spec(value: String) -> Self {
        CallbackError::Loud(value)
    }
}

/// What a callback's outcome sends back to the client: a handler's reply
/// as it stands, a loud error wrapped as an error message, silence for
/// the rest.
pub fn callback_reply(outcome: Result<Option<ServerMessage>, CallbackError>) -> (reply: Option<
    ServerMessage,
>)
    ensures
        reply == match outcome {
            Ok(Some(message)) => Some(message),
            Ok(None) => None::<ServerMessage>,
            Err(CallbackError::Loud(e)) => Some(ServerMessage::Error(e)),
            Err(CallbackError::Silent(_)) => None::<ServerMessage>,
        },
{
    match outcome {
        Ok(Some(message)) => Some(message),
        Ok(None) => None,
        Err(CallbackError::Loud(e)) => Some(ServerMessage::Error(e)),
        Err(CallbackError::Silent(_)) => None,
    }
}

/// What a broadcast amounts to: success only when every recipient could
/// be reached, otherwise the number that could not. A partial failure
/// never aborts the job that broadcast the row.
pub fn broadcast_outcome(failed_recipients: usize) -> (r: Result<(), usize>)
    ensures
        r is Ok <==> failed_recipients == 0,
        r matches Err(n) ==> n == failed_recipients,
{
    if failed_recipients == 0 {
        Ok(())
    } else {
        Err(failed_recipients)
    }
}

/// The listing window a query asks for: offset and row count, with the
/// defaults for an absent or unreadable parameter.
pub fn listing_window(start: Option<i64>, count: Option<i64>) -> (window: (i64, i64))
    ensures
        window.0 == match start {
            Some(s) => s as int,
            None => 0int,
        },
        window.1 == match count {
            Some(c) => c as int,
            None => 15int,
        },
{
    let first = match start {
        Some(s) => s,
        None => 0,
    };
    let rows = match count {
        Some(c) => c,
        None => 15,
    };
    (first, rows)
}

/// A rejection message from the request-serving surface.
pub struct ServerError {
    message: String,
}

impl ServerError {
    /// The message carried.
    pub closed spec fn text(&self) -> Seq<char> {
        self.message@
    }

    pub fn new(message: String) -> (e: Self)
        ensures
            e.text() == message@,
    {
        ServerError { message }
    }

    /// The message carried.
    pub fn message(&self) -> (m: &str)
        ensures
            m@ == self.text(),
    {
        self.message.as_str()
    }
}

} // verus!
