//! What a message handler is given, and what it may answer with.
use axum::http::StatusCode;
use std::sync::Arc;
use vstd::prelude::*;
use vstd::string::to_string_from_display_ensures;

use crate::text::join;
use crate::ws::types::{ConnectionId, Topic, WsSink};

verus! {

/// A context object passed to message handler methods.
///
/// It contains all the relevant state for a single connection, allowing the
/// handler to access application state, user information, and the client's
/// WebSocket sink for direct communication.
#[derive(Debug)]
pub struct ConnectionContext<S, U> {
    /// The unique ID of the connection.
    pub conn_id: ConnectionId,
    /// The ID of the authenticated user.
    pub user_id: U,
    /// The topic this connection is subscribed to.
    pub topic: Topic,
    /// A clone of the shared application state.
    pub app_state: Arc<S>,
    /// The WebSocket sink for sending messages directly to the client.
    pub sink: WsSink,
}

/// A standard error type for handler methods, consisting of an HTTP status code
/// and an optional, more specific error message.
#[derive(Debug)]
pub enum HandlerError {
    /// A custom error with a status code and message.
    Custom(StatusCode, Option<String>),
    /// An error that occurred during response serialization.
    Serialization(serde_json::Error),
}

impl From<(StatusCode, Option<String>)> for HandlerError {
    fn from(value: (StatusCode, Option<String>)) -> (error: Self) {
        HandlerError::Custom(value.0, value.1)
    }
}

impl vstd::std_specs::convert::FromSpecImpl<(StatusCode, Option<String>)> for HandlerError {
    open spec fn obeys_from_spec() -> bool {
        true
    }

    open spec fn from_spec(value: (StatusCode, Option<String>)) -> Self {
        HandlerError::Custom(value.0, value.1)
    }
}

impl From<serde_json::Error> for HandlerError {
    fn from(value: serde_json::Error) -> (error: Self) {
        HandlerError::Serialization(value)
    }
}

impl vstd::std_specs::convert::FromSpecImpl<serde_json::Error> for HandlerError {
    open spec fn obeys_from_spec() -> bool {
        true
    }

    open spec fn from_spec(value: serde_json::Error) -> Self {
        HandlerError::Serialization(value)
    }
}

/// What the client is told about a custom error: the message, or, where there is none, the
/// text of the status code.
pub open spec fn custom_text(message: Option<Seq<char>>, status_text: Seq<char>) -> Seq<char> {
    match message {
        Some(message) => message,
        None => status_text,
    }
}

/// What the client is told about an error in serialization.
pub open spec fn serialization_text(error_text: Seq<char>) -> Seq<char> {
    "Response serialization error: "@ + error_text
}

/// What the client is told about a custom error, given the text of its status code.
pub fn custom_message(message: Option<String>, status_text: String) -> (text: String)
    ensures
        text@ == custom_text(
            match message {
                Some(message) => Some(message@),
                None => None,
            },
            status_text@,
        ),
{
    match message {
        Some(message) => message,
        None => status_text,
    }
}

/// What the client is told about an error in serialization, given the text of the error.
pub fn serialization_message(error_text: &str) -> (text: String)
    ensures
        text@ == serialization_text(error_text@),
{
    join("Response serialization error: ", error_text)
}

impl HandlerError {
    /// Whether `text` is what the client is told about this error. The texts of a status
    /// code and of a JSON error are those that they display.
    pub open spec fn reads(self, text: Seq<char>) -> bool {
        match self {
            HandlerError::Custom(_, Some(message)) => text == message@,
            HandlerError::Custom(code, None) => exists|shown: String| #[trigger]
                to_string_from_display_ensures::<StatusCode>(&code, shown) && text == shown@,
            HandlerError::Serialization(error) => exists|shown: String| #[trigger]
                to_string_from_display_ensures::<serde_json::Error>(&error, shown) && text
                    == serialization_text(shown@),
        }
    }

    /// What the client is told about this error.
    pub fn message(self) -> (text: String)
        ensures
            self.reads(text@),
    {
        match self {
            HandlerError::Custom(code, message) => custom_message(message, code.to_string()),
            HandlerError::Serialization(error) => serialization_message(error.to_string().as_str()),
        }
    }
}

} // verus!
