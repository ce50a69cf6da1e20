//! The chat endpoint's messages, options and streamed events.
use vstd::prelude::*;

verus! {

/// One earlier turn of a conversation.
#[derive(Debug, PartialEq)]
pub enum ChatMessage {
    Chatbot { message: String },
    User { message: String },
}

/// How the prompt is cut down to fit the model's context.
#[derive(Debug, Clone, Copy, PartialEq, Eq)]
pub enum PromptTruncation {
    Auto,
    Off,
}

impl PromptTruncation {
    /// The option's name on the wire.
    pub fn to_string(&self) -> (r: String)
        ensures
            r@ == match self {
                PromptTruncation::Auto => "AUTO"@,
                PromptTruncation::Off => "OFF"@,
            },
    {
        match self {
            PromptTruncation::Auto => "AUTO".to_owned(),
            PromptTruncation::Off => "OFF".to_owned(),
        }
    }
}

/// How carefully citations are produced.
#[derive(Debug, Clone, Copy, PartialEq, Eq)]
pub enum CitationQuality {
    Accurate,
    Fast,
}

impl CitationQuality {
    /// The option's name on the wire.
    pub fn to_string(&self) -> (r: String)
        ensures
            r@ == match self {
                CitationQuality::Accurate => "accurate"@,
                CitationQuality::Fast => "fast"@,
            },
    {
        match self {
            CitationQuality::Accurate => "accurate".to_owned(),
            CitationQuality::Fast => "fast".to_owned(),
        }
    }
}

/// The complete reply that closes a chat stream.
#[derive(Debug, PartialEq)]
pub struct ChatResponse {
    pub generation_id: String,
    pub response_id: String,
    pub text: String,
}

/// One event of a chat stream.
#[derive(Debug, PartialEq)]
pub enum StreamEvent {
    Start { generation_id: String, is_finished: bool },
    TextGeneration { is_finished: bool, text: String },
    End { finish_reason: String, is_finished: bool, response: ChatResponse },
}

} // verus!
