//! The errors that end a chat stream or a request.
use vstd::prelude::*;
use vstd::string::*;
use crate::transport::{decimal, decimal_text};

verus! {

/// What went wrong. A record that fails to decode is no error of this kind:
/// it is dropped where it occurs and the stream goes on.
pub enum OllamaError {
    /// The transport could not be set up, or it failed while reading.
    Connection(String),
    /// The server's reply did not have the shape the raw transport expects.
    ProtocolFraming(String),
    /// The server answered with a status outside 200..=299; its body is kept.
    HttpStatus { status: u16, body: String },
    /// The reader ended the hand-off channel before the stream was over.
    ChannelClosed(String),
}

impl OllamaError {
    /// A message for the user: the kind of failure with its details.
    pub fn message(&self) -> (r: String)
        ensures
            r@ == match *self {
                OllamaError::Connection(m) => "connection error: "@ + m@,
                OllamaError::ProtocolFraming(m) => "protocol framing error: "@ + m@,
                OllamaError::HttpStatus { status, body } => "Failed to connect to Ollama API: "@
                    + decimal(status as nat) + " "@ + body@,
                OllamaError::ChannelClosed(m) => "channel closed: "@ + m@,
            },
    {
        match self {
            OllamaError::Connection(m) => {
                let r = String::from_str("connection error: ");
                r.concat(m.as_str())
            },
            OllamaError::ProtocolFraming(m) => {
                let r = String::from_str("protocol framing error: ");
                r.concat(m.as_str())
            },
            OllamaError::HttpStatus { status, body } => {
                let mut r = String::from_str("Failed to connect to Ollama API: ");
                r.append(decimal_text(*status as usize).as_str());
                r.append(" ");
                r.concat(body.as_str())
            },
            OllamaError::ChannelClosed(m) => {
                let r = String::from_str("channel closed: ");
                r.concat(m.as_str())
            },
        }
    }
}

} // verus!
