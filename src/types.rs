//! Request and response records of the chat, audio and image endpoints.
use std::collections::HashMap;

use vstd::prelude::*;

use crate::decimal::Decimal;

verus! {

/// The author of a chat message.
#[derive(Debug, Clone, Copy, PartialEq, Eq, Structural)]
pub enum Role {
    User,
    System,
    Assistant,
    Function,
}

impl Default for Role {
    fn default() -> (r: Role)
        ensures
            r == Role::User,
    {
        Role::User
    }
}

/// A chat completion request. Sampling parameters are exact decimals.
#[derive(Debug, Clone)]
pub struct ChatCompletionRequest {
    pub model: String,
    pub messages: Vec<MessageRequest>,
    pub functions: Option<Vec<Function>>,
    pub function_call: Option<String>,
    pub temperature: Option<Decimal>,
    pub top_p: Option<Decimal>,
    pub n: Option<i32>,
    pub stream: Option<bool>,
    pub stop: Option<Vec<String>>,
    pub max_tokens: Option<i32>,
    pub presence_penalty: Option<Decimal>,
    pub frequency_penalty: Option<Decimal>,
    pub logit_bias: Option<HashMap<String, Decimal>>,
    pub user: Option<String>,
}

/// A function that the model may ask to call.
#[derive(Debug, Clone)]
pub struct Function {
    pub name: String,
    pub description: String,
    pub parameters: Parameters,
}

/// One message of a chat request.
#[derive(Debug, Clone)]
pub struct MessageRequest {
    pub role: Role,
    pub content: Option<String>,
    pub name: Option<String>,
    pub function_call: Option<FunctionCall>,
}

/// A call of a function, by name, with its arguments as JSON text.
#[derive(Debug, Clone)]
pub struct FunctionCall {
    pub name: String,
    pub arguments: String,
}

#[derive(Debug, Clone)]
pub struct ChatCompletionResponse {
    pub id: String,
    pub object: String,
    pub created: u32,
    pub model: String,
    pub choices: Vec<ChoiceWrapper>,
    pub usage: Usage,
}

#[derive(Debug, Clone)]
pub struct ChoiceWrapper {
    pub index: i32,
    pub message: MessageResponse,
    pub finish_reason: String,
}

#[derive(Debug, Clone)]
pub struct MessageResponse {
    pub role: Role,
    pub content: Option<String>,
    pub function_call: Option<FunctionCall>,
}

#[derive(Debug, Clone, Copy, PartialEq, Eq, Structural)]
pub struct Usage {
    pub prompt_tokens: i32,
    pub completion_tokens: i32,
    pub total_tokens: i32,
}

/// The JSON schema of a function's parameters.
#[derive(Debug, Clone)]
pub struct Parameters {
    pub param_type: String,
    pub properties: HashMap<String, Property>,
    pub required: Vec<String>,
}

#[derive(Debug, Clone)]
pub struct Property {
    pub param_type: String,
    pub description: String,
}

/// One event of a streamed chat completion.
#[derive(Debug, Clone)]
pub struct StreamResponse {
    pub id: String,
    pub object: String,
    pub created: u32,
    pub model: String,
    pub choices: Vec<Choice>,
}

#[derive(Debug, Clone)]
pub struct Choice {
    pub index: u32,
    pub delta: Option<Delta>,
    pub finish_reason: Option<String>,
}

/// The fragment of a message that one stream event carries.
#[derive(Debug, Clone)]
pub struct Delta {
    pub role: Option<String>,
    pub content: Option<String>,
}

/// An audio transcription request; `file` is the path of the audio file.
#[derive(Debug, Clone)]
pub struct TranscriptionRequest {
    pub file: String,
    pub model: String,
    pub prompt: Option<String>,
    pub response_format: Option<String>,
    pub temperature: Option<Decimal>,
    pub language: Option<String>,
}

#[derive(Debug, Clone)]
pub struct TranscriptionResponse {
    pub text: String,
}

/// An audio translation request; `file` is the path of the audio file.
#[derive(Debug, Clone)]
pub struct TranslationRequest {
    pub file: String,
    pub model: String,
    pub prompt: Option<String>,
    pub response_format: Option<String>,
    pub temperature: Option<Decimal>,
}

#[derive(Debug, Clone)]
pub struct TranslationResponse {
    pub text: String,
}

#[derive(Debug, Clone)]
pub struct ImageRequest {
    pub prompt: String,
    pub n: Option<i32>,
    pub size: Option<String>,
    pub response_format: Option<String>,
    pub user: Option<String>,
}

#[derive(Debug, Clone)]
pub struct ImageResponse {
    pub created: u32,
    pub data: Vec<Image>,
}

#[derive(Debug, Clone)]
pub struct Image {
    pub url: String,
}

} // verus!
