//! A streaming chat-completion client for an Ollama inference server: the model
//! catalog, the wire data model, transport selection, the raw HTTP framing of the
//! same-host path, the newline framer of the response body and the per-request
//! session that decides what reaches the caller.

pub mod text;
pub mod catalog;
pub mod framer;
pub mod error;
pub mod transport;
pub mod raw_http;
pub mod wire;
pub mod stream;
pub mod capabilities;

pub use capabilities::{InfoValue, ModelShow};
pub use catalog::{get_max_tokens, KeepAlive, Model};
pub use error::OllamaError;
pub use stream::{DeltaStream, StreamState};
pub use transport::{select_transport, Transport};
pub use wire::{
    ChatMessage, ChatResponseDelta, LocalModel, LocalModelListing, LocalModelsResponse,
    ModelDetails, OllamaFunctionCall, OllamaFunctionTool, OllamaTool, OllamaToolCall,
};
