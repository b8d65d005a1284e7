//! The errors that reading and parsing CLI messages can end in.

use vstd::prelude::*;
use crate::json::Json;

verus! {

/// A message that could not be turned into a typed message, with the
/// document it came from where there is one.
#[derive(Debug)]
pub struct MessageParseError {
    pub message: String,
    pub data: Option<Json>,
}

impl MessageParseError {
    pub fn new(message: String, data: Option<Json>) -> (res: MessageParseError)
        ensures
            res.message == message,
            res.data == data,
    {
        MessageParseError { message, data }
    }
}

/// The errors of the SDK client that the message pipeline produces or passes on.
#[derive(Debug)]
pub enum ClaudeError {
    /// The document is not a valid message.
    MessageParse(MessageParseError),
    /// The document names a message type that this SDK does not know; it is
    /// kept whole so that a caller can log it and go on.
    UnknownMessageType { message_type: String, data: Json },
    /// The transport to the CLI failed, with its description.
    Transport(String),
}

/// The text that describes an error: a parse error by its own description,
/// an unknown type by its name, a transport failure by its reason.
pub open spec fn description(error: ClaudeError) -> Seq<char> {
    match error {
        ClaudeError::MessageParse(e) => e.message@,
        ClaudeError::UnknownMessageType { message_type, .. } => "Unknown message type: "@ + message_type@,
        ClaudeError::Transport(reason) => "Transport error: "@ + reason@,
    }
}

impl ClaudeError {
    /// The text that describes this error, for a log or a user.
    pub fn describe(&self) -> (res: String)
        ensures
            res@ == description(*self),
    {
        match self {
            ClaudeError::MessageParse(e) => e.message.clone(),
            ClaudeError::UnknownMessageType { message_type, .. } => {
                let mut text = "Unknown message type: ".to_owned();
                text.append(message_type.as_str());
                text
            },
            ClaudeError::Transport(reason) => {
                let mut text = "Transport error: ".to_owned();
                text.append(reason.as_str());
                text
            },
        }
    }

    /// Whether this error only says that a message had a type this SDK does not know.
    pub fn is_unknown_message_type(&self) -> (res: bool)
        ensures
            res == (*self is UnknownMessageType),
    {
        match self {
            ClaudeError::UnknownMessageType { .. } => true,
            _ => false,
        }
    }
}

} // verus!
