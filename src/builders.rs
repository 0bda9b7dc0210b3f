//! Builders of the requests that are checked before they are sent: each
//! field is optional, and `build` fills in the defaults once `validate`
//! accepts the sampling parameters.
use std::collections::HashMap;

use vstd::prelude::*;
use vstd::utf8::encode_utf8;

use crate::decimal::{decimal_text, digits, u64_text, Decimal};
use crate::types::{
    ChatCompletionRequest, Function, ImageRequest, MessageRequest, TranscriptionRequest,
    TranslationRequest,
};

verus! {

/// Builder of a `ChatCompletionRequest`.
#[derive(Debug, Clone)]
pub struct ChatCompletionRequestBuilder {
    pub model: Option<String>,
    pub messages: Option<Vec<MessageRequest>>,
    pub functions: Option<Vec<Function>>,
    pub function_call: Option<String>,
    pub temperature: Option<Decimal>,
    pub top_p: Option<Decimal>,
    pub n: Option<i32>,
    pub stream: Option<bool>,
    pub stop: Option<Vec<String>>,
    pub max_tokens: Option<i32>,
    pub presence_penalty: Option<Decimal>,
    pub frequency_penalty: Option<Decimal>,
    pub logit_bias: Option<HashMap<String, Decimal>>,
    pub user: Option<String>,
}

impl ChatCompletionRequestBuilder {
    /// A builder with no field set.
    pub fn new() -> (r: ChatCompletionRequestBuilder)
        ensures
            r.model is None,
            r.messages is None,
            r.functions is None,
            r.function_call is None,
            r.temperature is None,
            r.top_p is None,
            r.n is None,
            r.stream is None,
            r.stop is None,
            r.max_tokens is None,
            r.presence_penalty is None,
            r.frequency_penalty is None,
            r.logit_bias is None,
            r.user is None,
    {
        ChatCompletionRequestBuilder {
            model: None,
            messages: None,
            functions: None,
            function_call: None,
            temperature: None,
            top_p: None,
            n: None,
            stream: None,
            stop: None,
            max_tokens: None,
            presence_penalty: None,
            frequency_penalty: None,
            logit_bias: None,
            user: None,
        }
    }

    pub fn model(self, value: String) -> (r: ChatCompletionRequestBuilder)
        ensures
            r == (ChatCompletionRequestBuilder { model: Some(value), ..self }),
    {
        ChatCompletionRequestBuilder { model: Some(value), ..self }
    }

    pub fn messages(self, value: Vec<MessageRequest>) -> (r: ChatCompletionRequestBuilder)
        ensures
            r == (ChatCompletionRequestBuilder { messages: Some(value), ..self }),
    {
        ChatCompletionRequestBuilder { messages: Some(value), ..self }
    }

    pub fn functions(self, value: Vec<Function>) -> (r: ChatCompletionRequestBuilder)
        ensures
            r == (ChatCompletionRequestBuilder { functions: Some(value), ..self }),
    {
        ChatCompletionRequestBuilder { functions: Some(value), ..self }
    }

    pub fn function_call(self, value: String) -> (r: ChatCompletionRequestBuilder)
        ensures
            r == (ChatCompletionRequestBuilder { function_call: Some(value), ..self }),
    {
        ChatCompletionRequestBuilder { function_call: Some(value), ..self }
    }

    pub fn temperature(self, value: Decimal) -> (r: ChatCompletionRequestBuilder)
        ensures
            r == (ChatCompletionRequestBuilder { temperature: Some(value), ..self }),
    {
        ChatCompletionRequestBuilder { temperature: Some(value), ..self }
    }

    pub fn top_p(self, value: Decimal) -> (r: ChatCompletionRequestBuilder)
        ensures
            r == (ChatCompletionRequestBuilder { top_p: Some(value), ..self }),
    {
        ChatCompletionRequestBuilder { top_p: Some(value), ..self }
    }

    pub fn n(self, value: i32) -> (r: ChatCompletionRequestBuilder)
        ensures
            r == (ChatCompletionRequestBuilder { n: Some(value), ..self }),
    {
        ChatCompletionRequestBuilder { n: Some(value), ..self }
    }

    pub fn stream(self, value: bool) -> (r: ChatCompletionRequestBuilder)
        ensures
            r == (ChatCompletionRequestBuilder { stream: Some(value), ..self }),
    {
        ChatCompletionRequestBuilder { stream: Some(value), ..self }
    }

    pub fn stop(self, value: Vec<String>) -> (r: ChatCompletionRequestBuilder)
        ensures
            r == (ChatCompletionRequestBuilder { stop: Some(value), ..self }),
    {
        ChatCompletionRequestBuilder { stop: Some(value), ..self }
    }

    pub fn max_tokens(self, value: i32) -> (r: ChatCompletionRequestBuilder)
        ensures
            r == (ChatCompletionRequestBuilder { max_tokens: Some(value), ..self }),
    {
        ChatCompletionRequestBuilder { max_tokens: Some(value), ..self }
    }

    pub fn presence_penalty(self, value: Decimal) -> (r: ChatCompletionRequestBuilder)
        ensures
            r == (ChatCompletionRequestBuilder { presence_penalty: Some(value), ..self }),
    {
        ChatCompletionRequestBuilder { presence_penalty: Some(value), ..self }
    }

    pub fn frequency_penalty(self, value: Decimal) -> (r: ChatCompletionRequestBuilder)
        ensures
            r == (ChatCompletionRequestBuilder { frequency_penalty: Some(value), ..self }),
    {
        ChatCompletionRequestBuilder { frequency_penalty: Some(value), ..self }
    }

    pub fn logit_bias(self, value: HashMap<String, Decimal>) -> (r: ChatCompletionRequestBuilder)
        ensures
            r == (ChatCompletionRequestBuilder { logit_bias: Some(value), ..self }),
    {
        ChatCompletionRequestBuilder { logit_bias: Some(value), ..self }
    }

    pub fn user(self, value: String) -> (r: ChatCompletionRequestBuilder)
        ensures
            r == (ChatCompletionRequestBuilder { user: Some(value), ..self }),
    {
        ChatCompletionRequestBuilder { user: Some(value), ..self }
    }

}

impl Default for ChatCompletionRequestBuilder {
    fn default() -> (r: ChatCompletionRequestBuilder)
        ensures
            r.model is None,
            r.messages is None,
            r.functions is None,
            r.function_call is None,
            r.temperature is None,
            r.top_p is None,
            r.n is None,
            r.stream is None,
            r.stop is None,
            r.max_tokens is None,
            r.presence_penalty is None,
            r.frequency_penalty is None,
            r.logit_bias is None,
            r.user is None,
    {
        ChatCompletionRequestBuilder::new()
    }
}

/// Builder of a `TranscriptionRequest`.
#[derive(Debug, Clone)]
pub struct TranscriptionRequestBuilder {
    pub file: Option<String>,
    pub model: Option<String>,
    pub prompt: Option<String>,
    pub response_format: Option<String>,
    pub temperature: Option<Decimal>,
    pub language: Option<String>,
}

impl TranscriptionRequestBuilder {
    /// A builder with no field set.
    pub fn new() -> (r: TranscriptionRequestBuilder)
        ensures
            r.file is None,
            r.model is None,
            r.prompt is None,
            r.response_format is None,
            r.temperature is None,
            r.language is None,
    {
        TranscriptionRequestBuilder {
            file: None,
            model: None,
            prompt: None,
            response_format: None,
            temperature: None,
            language: None,
        }
    }

    pub fn file(self, value: String) -> (r: TranscriptionRequestBuilder)
        ensures
            r == (TranscriptionRequestBuilder { file: Some(value), ..self }),
    {
        TranscriptionRequestBuilder { file: Some(value), ..self }
    }

    pub fn model(self, value: String) -> (r: TranscriptionRequestBuilder)
        ensures
            r == (TranscriptionRequestBuilder { model: Some(value), ..self }),
    {
        TranscriptionRequestBuilder { model: Some(value), ..self }
    }

    pub fn prompt(self, value: String) -> (r: TranscriptionRequestBuilder)
        ensures
            r == (TranscriptionRequestBuilder { prompt: Some(value), ..self }),
    {
        TranscriptionRequestBuilder { prompt: Some(value), ..self }
    }

    pub fn response_format(self, value: String) -> (r: TranscriptionRequestBuilder)
        ensures
            r == (TranscriptionRequestBuilder { response_format: Some(value), ..self }),
    {
        TranscriptionRequestBuilder { response_format: Some(value), ..self }
    }

    pub fn temperature(self, value: Decimal) -> (r: TranscriptionRequestBuilder)
        ensures
            r == (TranscriptionRequestBuilder { temperature: Some(value), ..self }),
    {
        TranscriptionRequestBuilder { temperature: Some(value), ..self }
    }

    pub fn language(self, value: String) -> (r: TranscriptionRequestBuilder)
        ensures
            r == (TranscriptionRequestBuilder { language: Some(value), ..self }),
    {
        TranscriptionRequestBuilder { language: Some(value), ..self }
    }

}

impl Default for TranscriptionRequestBuilder {
    fn default() -> (r: TranscriptionRequestBuilder)
        ensures
            r.file is None,
            r.model is None,
            r.prompt is None,
            r.response_format is None,
            r.temperature is None,
            r.language is None,
    {
        TranscriptionRequestBuilder::new()
    }
}

/// Builder of a `TranslationRequest`.
#[derive(Debug, Clone)]
pub struct TranslationRequestBuilder {
    pub file: Option<String>,
    pub model: Option<String>,
    pub prompt: Option<String>,
    pub response_format: Option<String>,
    pub temperature: Option<Decimal>,
}

impl TranslationRequestBuilder {
    /// A builder with no field set.
    pub fn new() -> (r: TranslationRequestBuilder)
        ensures
            r.file is None,
            r.model is None,
            r.prompt is None,
            r.response_format is None,
            r.temperature is None,
    {
        TranslationRequestBuilder {
            file: None,
            model: None,
            prompt: None,
            response_format: None,
            temperature: None,
        }
    }

    pub fn file(self, value: String) -> (r: TranslationRequestBuilder)
        ensures
            r == (TranslationRequestBuilder { file: Some(value), ..self }),
    {
        TranslationRequestBuilder { file: Some(value), ..self }
    }

    pub fn model(self, value: String) -> (r: TranslationRequestBuilder)
        ensures
            r == (TranslationRequestBuilder { model: Some(value), ..self }),
    {
        TranslationRequestBuilder { model: Some(value), ..self }
    }

    pub fn prompt(self, value: String) -> (r: TranslationRequestBuilder)
        ensures
            r == (TranslationRequestBuilder { prompt: Some(value), ..self }),
    {
        TranslationRequestBuilder { prompt: Some(value), ..self }
    }

    pub fn response_format(self, value: String) -> (r: TranslationRequestBuilder)
        ensures
            r == (TranslationRequestBuilder { response_format: Some(value), ..self }),
    {
        TranslationRequestBuilder { response_format: Some(value), ..self }
    }

    pub fn temperature(self, value: Decimal) -> (r: TranslationRequestBuilder)
        ensures
            r == (TranslationRequestBuilder { temperature: Some(value), ..self }),
    {
        TranslationRequestBuilder { temperature: Some(value), ..self }
    }

}

impl Default for TranslationRequestBuilder {
    fn default() -> (r: TranslationRequestBuilder)
        ensures
            r.file is None,
            r.model is None,
            r.prompt is None,
            r.response_format is None,
            r.temperature is None,
    {
        TranslationRequestBuilder::new()
    }
}

/// Builder of an `ImageRequest`.
#[derive(Debug, Clone)]
pub struct ImageRequestBuilder {
    pub prompt: Option<String>,
    pub n: Option<i32>,
    pub size: Option<String>,
    pub response_format: Option<String>,
    pub user: Option<String>,
}

impl ImageRequestBuilder {
    /// A builder with no field set.
    pub fn new() -> (r: ImageRequestBuilder)
        ensures
            r.prompt is None,
            r.n is None,
            r.size is None,
            r.response_format is None,
            r.user is None,
    {
        ImageRequestBuilder {
            prompt: None,
            n: None,
            size: None,
            response_format: None,
            user: None,
        }
    }

    pub fn prompt(self, value: String) -> (r: ImageRequestBuilder)
        ensures
            r == (ImageRequestBuilder { prompt: Some(value), ..self }),
    {
        ImageRequestBuilder { prompt: Some(value), ..self }
    }

    pub fn n(self, value: i32) -> (r: ImageRequestBuilder)
        ensures
            r == (ImageRequestBuilder { n: Some(value), ..self }),
    {
        ImageRequestBuilder { n: Some(value), ..self }
    }

    pub fn size(self, value: String) -> (r: ImageRequestBuilder)
        ensures
            r == (ImageRequestBuilder { size: Some(value), ..self }),
    {
        ImageRequestBuilder { size: Some(value), ..self }
    }

    pub fn response_format(self, value: String) -> (r: ImageRequestBuilder)
        ensures
            r == (ImageRequestBuilder { response_format: Some(value), ..self }),
    {
        ImageRequestBuilder { response_format: Some(value), ..self }
    }

    pub fn user(self, value: String) -> (r: ImageRequestBuilder)
        ensures
            r == (ImageRequestBuilder { user: Some(value), ..self }),
    {
        ImageRequestBuilder { user: Some(value), ..self }
    }

}

impl Default for ImageRequestBuilder {
    fn default() -> (r: ImageRequestBuilder)
        ensures
            r.prompt is None,
            r.n is None,
            r.size is None,
            r.response_format is None,
            r.user is None,
    {
        ImageRequestBuilder::new()
    }
}

/// The message that rejects a parameter outside its range.
pub open spec fn range_message(field: Seq<char>, value: Decimal, bounds: Seq<char>) -> Seq<char> {
    "Invalid "@ + field + ": "@ + decimal_text(value) + ". It should be between "@ + bounds + "."@
}

fn range_error(field: &str, value: &Decimal, bounds: &str) -> (r: String)
    ensures
        r@ == range_message(field@, *value, bounds@),
{
    let mut m = "Invalid ".to_owned();
    m.append(field);
    m.append(": ");
    let t = value.to_text();
    m.append(t.as_str());
    m.append(". It should be between ");
    m.append(bounds);
    m.append(".");
    m
}

/// What checking a chat request's sampling parameters gives: `None` where
/// they are accepted, else the message for the first one out of range.
pub open spec fn chat_rejection(b: ChatCompletionRequestBuilder) -> Option<Seq<char>> {
    if b.temperature is Some && !b.temperature->0.spec_within(0, 2) {
        Some(range_message("temperature"@, b.temperature->0, "0.0 and 2.0"@))
    } else if b.presence_penalty is Some && !b.presence_penalty->0.spec_within(-2, 2) {
        Some(range_message("presence_penalty"@, b.presence_penalty->0, "-2.0 and 2.0"@))
    } else if b.frequency_penalty is Some && !b.frequency_penalty->0.spec_within(0, 2) {
        Some(range_message("frequency_penalty"@, b.frequency_penalty->0, "-2.0 and 2.0"@))
    } else {
        None
    }
}

/// `q` is the request that `b` describes, with the defaults filled in.
pub open spec fn chat_built(b: ChatCompletionRequestBuilder, q: ChatCompletionRequest) -> bool {
    &&& q.model@ == (if b.model is Some {
        b.model->0@
    } else {
        "gpt-3.5-turbo"@
    })
    &&& q.messages@ == (if b.messages is Some {
        b.messages->0@
    } else {
        Seq::empty()
    })
    &&& q.functions == b.functions
    &&& q.function_call == b.function_call
    &&& q.temperature == b.temperature
    &&& q.top_p == b.top_p
    &&& q.n == b.n
    &&& q.stream == b.stream
    &&& q.stop == b.stop
    &&& q.max_tokens == b.max_tokens
    &&& q.presence_penalty == b.presence_penalty
    &&& q.frequency_penalty == b.frequency_penalty
    &&& q.logit_bias == b.logit_bias
    &&& q.user == b.user
}

impl ChatCompletionRequestBuilder {
    /// Accepts a temperature in `[0, 2]`, a presence penalty in `[-2, 2]` and
    /// a frequency penalty in `[0, 2]`, where they are set.
    pub fn validate(&self) -> (r: Result<(), String>)
        ensures
            match r {
                Ok(_) => chat_rejection(*self) is None,
                Err(e) => chat_rejection(*self) == Some(e@),
            },
    {
        if let Some(t) = &self.temperature {
            if !t.within(0, 2) {
                return Err(range_error("temperature", t, "0.0 and 2.0"));
            }
        }
        if let Some(p) = &self.presence_penalty {
            if !p.within(-2, 2) {
                return Err(range_error("presence_penalty", p, "-2.0 and 2.0"));
            }
        }
        if let Some(f) = &self.frequency_penalty {
            if !f.within(0, 2) {
                return Err(range_error("frequency_penalty", f, "-2.0 and 2.0"));
            }
        }
        Ok(())
    }

    /// The request, where `validate` accepts it; else its message.
    pub fn build(self) -> (r: Result<ChatCompletionRequest, String>)
        ensures
            match r {
                Ok(q) => chat_rejection(self) is None && chat_built(self, q),
                Err(e) => chat_rejection(self) == Some(e@),
            },
    {
        match self.validate() {
            Err(e) => Err(e),
            Ok(_) => {
                let model = match self.model {
                    Some(m) => m,
                    None => "gpt-3.5-turbo".to_owned(),
                };
                let messages = match self.messages {
                    Some(v) => v,
                    None => Vec::new(),
                };
                Ok(
                    ChatCompletionRequest {
                        model,
                        messages,
                        functions: self.functions,
                        function_call: self.function_call,
                        temperature: self.temperature,
                        top_p: self.top_p,
                        n: self.n,
                        stream: self.stream,
                        stop: self.stop,
                        max_tokens: self.max_tokens,
                        presence_penalty: self.presence_penalty,
                        frequency_penalty: self.frequency_penalty,
                        logit_bias: self.logit_bias,
                        user: self.user,
                    },
                )
            },
        }
    }
}

/// What checking an audio request's temperature gives: `None` where it is
/// unset or in `[0, 1]`, else its message.
pub open spec fn audio_rejection(temperature: Option<Decimal>) -> Option<Seq<char>> {
    if temperature is Some && !temperature->0.spec_within(0, 1) {
        Some(range_message("temperature"@, temperature->0, "0.0 and 1.0"@))
    } else {
        None
    }
}

fn check_audio_temperature(temperature: &Option<Decimal>) -> (r: Result<(), String>)
    ensures
        match r {
            Ok(_) => audio_rejection(*temperature) is None,
            Err(e) => audio_rejection(*temperature) == Some(e@),
        },
{
    if let Some(t) = temperature {
        if !t.within(0, 1) {
            return Err(range_error("temperature", t, "0.0 and 1.0"));
        }
    }
    Ok(())
}

fn string_or(value: Option<String>, default: &str) -> (r: String)
    ensures
        r@ == (if value is Some {
            value->0@
        } else {
            default@
        }),
{
    match value {
        Some(v) => v,
        None => default.to_owned(),
    }
}

impl TranscriptionRequestBuilder {
    /// Accepts a temperature in `[0, 1]`, where it is set.
    pub fn validate(&self) -> (r: Result<(), String>)
        ensures
            match r {
                Ok(_) => audio_rejection(self.temperature) is None,
                Err(e) => audio_rejection(self.temperature) == Some(e@),
            },
    {
        check_audio_temperature(&self.temperature)
    }

    /// The request, where `validate` accepts it; else its message. The model
    /// defaults to `whisper-1`, the file to the empty path.
    pub fn build(self) -> (r: Result<TranscriptionRequest, String>)
        ensures
            match r {
                Ok(q) => {
                    &&& audio_rejection(self.temperature) is None
                    &&& q.file@ == (if self.file is Some {
                        self.file->0@
                    } else {
                        ""@
                    })
                    &&& q.model@ == (if self.model is Some {
                        self.model->0@
                    } else {
                        "whisper-1"@
                    })
                    &&& q.prompt == self.prompt
                    &&& q.response_format == self.response_format
                    &&& q.temperature == self.temperature
                    &&& q.language == self.language
                },
                Err(e) => audio_rejection(self.temperature) == Some(e@),
            },
    {
        match self.validate() {
            Err(e) => Err(e),
            Ok(_) => Ok(
                TranscriptionRequest {
                    file: string_or(self.file, ""),
                    model: string_or(self.model, "whisper-1"),
                    prompt: self.prompt,
                    response_format: self.response_format,
                    temperature: self.temperature,
                    language: self.language,
                },
            ),
        }
    }
}

impl TranslationRequestBuilder {
    /// Accepts a temperature in `[0, 1]`, where it is set.
    pub fn validate(&self) -> (r: Result<(), String>)
        ensures
            match r {
                Ok(_) => audio_rejection(self.temperature) is None,
                Err(e) => audio_rejection(self.temperature) == Some(e@),
            },
    {
        check_audio_temperature(&self.temperature)
    }

    /// The request, where `validate` accepts it; else its message. The model
    /// defaults to `whisper-1`, the file to the empty path.
    pub fn build(self) -> (r: Result<TranslationRequest, String>)
        ensures
            match r {
                Ok(q) => {
                    &&& audio_rejection(self.temperature) is None
                    &&& q.file@ == (if self.file is Some {
                        self.file->0@
                    } else {
                        ""@
                    })
                    &&& q.model@ == (if self.model is Some {
                        self.model->0@
                    } else {
                        "whisper-1"@
                    })
                    &&& q.prompt == self.prompt
                    &&& q.response_format == self.response_format
                    &&& q.temperature == self.temperature
                },
                Err(e) => audio_rejection(self.temperature) == Some(e@),
            },
    {
        match self.validate() {
            Err(e) => Err(e),
            Ok(_) => Ok(
                TranslationRequest {
                    file: string_or(self.file, ""),
                    model: string_or(self.model, "whisper-1"),
                    prompt: self.prompt,
                    response_format: self.response_format,
                    temperature: self.temperature,
                },
            ),
        }
    }
}

/// The longest image prompt accepted, in bytes of UTF-8.
pub const MAX_PROMPT_LEN: usize = 1000;

/// What checking an image request gives: `None` where the prompt is unset or
/// at most `MAX_PROMPT_LEN` bytes long, else the message.
pub open spec fn image_rejection(b: ImageRequestBuilder) -> Option<Seq<char>> {
    if b.prompt is Some && encode_utf8(b.prompt->0@).len() > MAX_PROMPT_LEN {
        Some(
            "Invalid prompt: "@ + digits(encode_utf8(b.prompt->0@).len())
                + ". It should be less than 1000 characters."@,
        )
    } else {
        None
    }
}

impl ImageRequestBuilder {
    /// Accepts a prompt of at most `MAX_PROMPT_LEN` bytes, where it is set.
    pub fn validate(&self) -> (r: Result<(), String>)
        ensures
            match r {
                Ok(_) => image_rejection(*self) is None,
                Err(e) => image_rejection(*self) == Some(e@),
            },
    {
        if let Some(p) = &self.prompt {
            let n = p.as_str().as_bytes().len();
            if n > MAX_PROMPT_LEN {
                let mut m = "Invalid prompt: ".to_owned();
                let t = u64_text(n as u64);
                m.append(t.as_str());
                m.append(". It should be less than 1000 characters.");
                return Err(m);
            }
        }
        Ok(())
    }

    /// The request, where `validate` accepts it; else its message. The prompt
    /// defaults to the empty text.
    pub fn build(self) -> (r: Result<ImageRequest, String>)
        ensures
            match r {
                Ok(q) => {
                    &&& image_rejection(self) is None
                    &&& q.prompt@ == (if self.prompt is Some {
                        self.prompt->0@
                    } else {
                        ""@
                    })
                    &&& q.n == self.n
                    &&& q.size == self.size
                    &&& q.response_format == self.response_format
                    &&& q.user == self.user
                },
                Err(e) => image_rejection(self) == Some(e@),
            },
    {
        match self.validate() {
            Err(e) => Err(e),
            Ok(_) => Ok(
                ImageRequest {
                    prompt: string_or(self.prompt, ""),
                    n: self.n,
                    size: self.size,
                    response_format: self.response_format,
                    user: self.user,
                },
            ),
        }
    }
}

} // verus!
