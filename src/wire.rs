//! What the transport sends, apart from the sending: the endpoints, the
//! authorization header, and the fields of the multipart audio uploads.
use vstd::prelude::*;

use crate::decimal::{decimal_text, Decimal};
use crate::types::{ChatCompletionRequest, TranscriptionRequest, TranslationRequest};

verus! {

pub const CHAT_API_URL: &'static str = "https://api.openai.com/v1/chat/completions";

pub const TRANSCRIPTIONS_API_URL: &'static str = "https://api.openai.com/v1/audio/transcriptions";

pub const TRANSLATIONS_API_URL: &'static str = "https://api.openai.com/v1/audio/translations";

/// The value of the `Authorization` header for a credential.
pub fn bearer_value(api_key: &str) -> (r: String)
    ensures
        r@ == "Bearer "@ + api_key@,
{
    let mut v = "Bearer ".to_owned();
    v.append(api_key);
    v
}

/// The request with streaming switched on, everything else as it was.
pub fn streaming_request(request: ChatCompletionRequest) -> (r: ChatCompletionRequest)
    ensures
        r == (ChatCompletionRequest { stream: Some(true), ..request }),
{
    ChatCompletionRequest { stream: Some(true), ..request }
}

/// One text field of a multipart form, as its name and value.
pub open spec fn field_view(f: (String, String)) -> (Seq<char>, Seq<char>) {
    (f.0@, f.1@)
}

pub open spec fn optional_field(name: Seq<char>, value: Option<String>) -> Seq<(Seq<char>, Seq<char>)> {
    if value is Some {
        seq![(name, value->0@)]
    } else {
        Seq::empty()
    }
}

pub open spec fn optional_number_field(name: Seq<char>, value: Option<Decimal>) -> Seq<
    (Seq<char>, Seq<char>),
> {
    if value is Some {
        seq![(name, decimal_text(value->0))]
    } else {
        Seq::empty()
    }
}

/// The text fields of a transcription upload, in order: the model, then each
/// optional field that is set.
pub open spec fn transcription_fields(q: TranscriptionRequest) -> Seq<(Seq<char>, Seq<char>)> {
    seq![("model"@, q.model@)] + optional_field("prompt"@, q.prompt) + optional_field(
        "response_format"@,
        q.response_format,
    ) + optional_number_field("temperature"@, q.temperature) + optional_field(
        "language"@,
        q.language,
    )
}

/// The text fields of a translation upload, in order: the model, then each
/// optional field that is set.
pub open spec fn translation_fields(q: TranslationRequest) -> Seq<(Seq<char>, Seq<char>)> {
    seq![("model"@, q.model@)] + optional_field("prompt"@, q.prompt) + optional_field(
        "response_format"@,
        q.response_format,
    ) + optional_number_field("temperature"@, q.temperature)
}

fn push_optional(fields: &mut Vec<(String, String)>, name: &str, value: &Option<String>)
    ensures
        final(fields)@.map_values(|f: (String, String)| field_view(f)) == old(fields)@.map_values(
            |f: (String, String)| field_view(f),
        ) + optional_field(name@, *value),
{
    let ghost before = old(fields)@.map_values(|f: (String, String)| field_view(f));
    if let Some(v) = value {
        fields.push((name.to_owned(), v.clone()));
    }
    assert(fields@.map_values(|f: (String, String)| field_view(f)) =~= before + optional_field(
        name@,
        *value,
    ));
}

fn push_optional_number(fields: &mut Vec<(String, String)>, name: &str, value: &Option<Decimal>)
    ensures
        final(fields)@.map_values(|f: (String, String)| field_view(f)) == old(fields)@.map_values(
            |f: (String, String)| field_view(f),
        ) + optional_number_field(name@, *value),
{
    let ghost before = old(fields)@.map_values(|f: (String, String)| field_view(f));
    if let Some(v) = value {
        fields.push((name.to_owned(), v.to_text()));
    }
    assert(fields@.map_values(|f: (String, String)| field_view(f)) =~= before
        + optional_number_field(name@, *value));
}

/// The text fields of the multipart form that uploads a transcription
/// request; the file goes beside them as its own part.
pub fn transcription_form_fields(request: &TranscriptionRequest) -> (r: Vec<(String, String)>)
    ensures
        r@.map_values(|f: (String, String)| field_view(f)) == transcription_fields(*request),
{
    let mut fields: Vec<(String, String)> = Vec::new();
    fields.push(("model".to_owned(), request.model.clone()));
    assert(fields@.map_values(|f: (String, String)| field_view(f)) =~= seq![
        ("model"@, request.model@),
    ]);
    push_optional(&mut fields, "prompt", &request.prompt);
    push_optional(&mut fields, "response_format", &request.response_format);
    push_optional_number(&mut fields, "temperature", &request.temperature);
    push_optional(&mut fields, "language", &request.language);
    fields
}

/// The text fields of the multipart form that uploads a translation request;
/// the file goes beside them as its own part.
pub fn translation_form_fields(request: &TranslationRequest) -> (r: Vec<(String, String)>)
    ensures
        r@.map_values(|f: (String, String)| field_view(f)) == translation_fields(*request),
{
    let mut fields: Vec<(String, String)> = Vec::new();
    fields.push(("model".to_owned(), request.model.clone()));
    assert(fields@.map_values(|f: (String, String)| field_view(f)) =~= seq![
        ("model"@, request.model@),
    ]);
    push_optional(&mut fields, "prompt", &request.prompt);
    push_optional(&mut fields, "response_format", &request.response_format);
    push_optional_number(&mut fields, "temperature", &request.temperature);
    fields
}

} // verus!
