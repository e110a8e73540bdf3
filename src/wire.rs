//! The records exchanged with the server. Their JSON form is produced and
//! read outside this crate; here they are plain data.
use vstd::prelude::*;

verus! {

/// An arbitrary JSON value, carried through unread (tool arguments and
/// parameter schemas).
#[verifier::external_type_specification]
#[verifier::external_body]
pub struct ExJsonValue(serde_json::Value);

/// One chat message, tagged by its role.
#[derive(Debug)]
pub enum ChatMessage {
    Assistant {
        content: String,
        tool_calls: Option<Vec<OllamaToolCall>>,
        images: Option<Vec<String>>,
        thinking: Option<String>,
    },
    User { content: String, images: Option<Vec<String>> },
    System { content: String },
    Tool { tool_name: String, content: String },
}

/// A tool call requested by the model. Servers before 0.12.10 send no id.
#[derive(Debug)]
pub struct OllamaToolCall {
    pub id: Option<String>,
    pub function: OllamaFunctionCall,
}

/// The function a tool call names, with its arguments as sent.
#[derive(Debug)]
pub struct OllamaFunctionCall {
    pub name: String,
    pub arguments: serde_json::Value,
}

/// A function offered to the model as a tool.
#[derive(Debug)]
pub struct OllamaFunctionTool {
    pub name: String,
    pub description: Option<String>,
    pub parameters: Option<serde_json::Value>,
}

/// A tool offered to the model.
#[derive(Debug)]
pub enum OllamaTool {
    Function { function: OllamaFunctionTool },
}

/// One record of a streaming chat response.
#[derive(Debug)]
pub struct ChatResponseDelta {
    pub model: String,
    pub created_at: String,
    pub message: ChatMessage,
    pub done_reason: Option<String>,
    /// Set on the last record of a response.
    pub done: bool,
    pub prompt_eval_count: Option<u64>,
    pub eval_count: Option<u64>,
}

/// The reply to a model listing.
pub struct LocalModelsResponse {
    pub models: Vec<LocalModelListing>,
}

/// One installed model, as the listing describes it.
pub struct LocalModelListing {
    pub name: String,
    pub modified_at: String,
    pub size: u64,
    pub digest: String,
    pub details: ModelDetails,
}

/// The definition of an installed model.
pub struct LocalModel {
    pub modelfile: String,
    pub parameters: String,
    pub template: String,
    pub details: ModelDetails,
}

/// Format, family and size of a model.
pub struct ModelDetails {
    pub format: String,
    pub family: String,
    pub families: Option<Vec<String>>,
    pub parameter_size: String,
    pub quantization_level: String,
}

} // verus!
