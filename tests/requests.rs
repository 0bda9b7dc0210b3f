use openai_rust::builders::{
    ChatCompletionRequestBuilder, ImageRequestBuilder, TranscriptionRequestBuilder,
    TranslationRequestBuilder,
};
use openai_rust::decimal::Decimal;
use openai_rust::types::{MessageRequest, Role};
use openai_rust::wire::{bearer_value, streaming_request, transcription_form_fields, translation_form_fields};

fn dec(m: i64, s: u32) -> Decimal {
    Decimal::new(m, s).unwrap()
}

#[test]
fn decimal_text() {
    assert_eq!(dec(25, 1).to_text(), "2.5");
    assert_eq!(dec(20, 1).to_text(), "2");
    assert_eq!(dec(1500, 3).to_text(), "1.5");
    assert_eq!(dec(-5, 1).to_text(), "-0.5");
    assert_eq!(dec(123, 0).to_text(), "123");
    assert_eq!(dec(1, 7).to_text(), "0.0000001");
    assert_eq!(dec(i64::MIN, 0).to_text(), "-9223372036854775808");
    assert_eq!(Decimal::from_int(-3).to_text(), "-3");
}

#[test]
fn decimal_scale_bound() {
    assert!(Decimal::new(1, 18).is_some());
    assert!(Decimal::new(1, 19).is_none());
}

#[test]
fn decimal_within() {
    assert!(dec(0, 1).within(0, 2));
    assert!(dec(20, 1).within(0, 2));
    assert!(!dec(20001, 4).within(0, 2));
    assert!(!dec(-1, 4).within(0, 2));
    assert!(dec(i64::MAX, 18).within(0, 10));
}

#[test]
fn chat_temperature_boundaries() {
    let ok0 = ChatCompletionRequestBuilder::new().temperature(dec(0, 1));
    assert_eq!(ok0.validate(), Ok(()));
    let ok2 = ChatCompletionRequestBuilder::new().temperature(dec(20, 1));
    assert_eq!(ok2.validate(), Ok(()));
    let high = ChatCompletionRequestBuilder::new().temperature(dec(20001, 4));
    assert_eq!(
        high.validate(),
        Err("Invalid temperature: 2.0001. It should be between 0.0 and 2.0.".to_string())
    );
    let low = ChatCompletionRequestBuilder::new().temperature(dec(-1, 4));
    assert_eq!(
        low.validate(),
        Err("Invalid temperature: -0.0001. It should be between 0.0 and 2.0.".to_string())
    );
}

#[test]
fn chat_penalties() {
    let ok = ChatCompletionRequestBuilder::new()
        .presence_penalty(dec(-2, 0))
        .frequency_penalty(dec(2, 0));
    assert_eq!(ok.validate(), Ok(()));
    let bad = ChatCompletionRequestBuilder::new().presence_penalty(dec(-25, 1));
    assert_eq!(
        bad.validate(),
        Err("Invalid presence_penalty: -2.5. It should be between -2.0 and 2.0.".to_string())
    );
    let bad = ChatCompletionRequestBuilder::new().frequency_penalty(dec(-5, 1));
    assert_eq!(
        bad.validate(),
        Err("Invalid frequency_penalty: -0.5. It should be between -2.0 and 2.0.".to_string())
    );
    let both = ChatCompletionRequestBuilder::new()
        .temperature(dec(3, 0))
        .presence_penalty(dec(3, 0));
    assert_eq!(
        both.validate(),
        Err("Invalid temperature: 3. It should be between 0.0 and 2.0.".to_string())
    );
}

#[test]
fn chat_build_defaults() {
    let message = MessageRequest {
        role: Role::User,
        content: Some("Hello".to_string()),
        name: None,
        function_call: None,
    };
    let q = ChatCompletionRequestBuilder::new()
        .messages(vec![message])
        .temperature(dec(7, 1))
        .build()
        .unwrap();
    assert_eq!(q.model, "gpt-3.5-turbo");
    assert_eq!(q.messages.len(), 1);
    assert_eq!(q.temperature, Some(dec(7, 1)));
    assert_eq!(q.stream, None);
    let q = ChatCompletionRequestBuilder::new().model("gpt-4".to_string()).build().unwrap();
    assert_eq!(q.model, "gpt-4");
    assert!(q.messages.is_empty());
    let e = ChatCompletionRequestBuilder::new().temperature(dec(21, 1)).build().unwrap_err();
    assert_eq!(e, "Invalid temperature: 2.1. It should be between 0.0 and 2.0.");
}

#[test]
fn audio_temperature_boundaries() {
    assert!(TranscriptionRequestBuilder::new().temperature(dec(0, 0)).validate().is_ok());
    assert!(TranscriptionRequestBuilder::new().temperature(dec(1, 0)).validate().is_ok());
    assert_eq!(
        TranscriptionRequestBuilder::new().temperature(dec(10001, 4)).validate(),
        Err("Invalid temperature: 1.0001. It should be between 0.0 and 1.0.".to_string())
    );
    assert!(TranslationRequestBuilder::new().temperature(dec(10, 1)).validate().is_ok());
    assert_eq!(
        TranslationRequestBuilder::new().temperature(dec(-1, 4)).validate(),
        Err("Invalid temperature: -0.0001. It should be between 0.0 and 1.0.".to_string())
    );
}

#[test]
fn audio_build_defaults() {
    let q = TranscriptionRequestBuilder::new().file("a.mp3".to_string()).build().unwrap();
    assert_eq!(q.model, "whisper-1");
    assert_eq!(q.file, "a.mp3");
    let q = TranslationRequestBuilder::new().build().unwrap();
    assert_eq!(q.model, "whisper-1");
    assert_eq!(q.file, "");
}

#[test]
fn image_prompt_length() {
    let ok = ImageRequestBuilder::new().prompt("a".repeat(1000));
    assert!(ok.validate().is_ok());
    let bad = ImageRequestBuilder::new().prompt("a".repeat(1001));
    assert_eq!(
        bad.validate(),
        Err("Invalid prompt: 1001. It should be less than 1000 characters.".to_string())
    );
    let q = ImageRequestBuilder::new().n(2).build().unwrap();
    assert_eq!(q.prompt, "");
    assert_eq!(q.n, Some(2));
}

#[test]
fn bearer_header() {
    assert_eq!(bearer_value("sk-test"), "Bearer sk-test");
}

#[test]
fn streaming_flag_set() {
    let q = ChatCompletionRequestBuilder::new().stream(false).build().unwrap();
    let q = streaming_request(q);
    assert_eq!(q.stream, Some(true));
    assert_eq!(q.model, "gpt-3.5-turbo");
}

#[test]
fn audio_form_fields() {
    let q = TranscriptionRequestBuilder::new()
        .file("a.mp3".to_string())
        .prompt("p".to_string())
        .temperature(dec(5, 1))
        .language("en".to_string())
        .build()
        .unwrap();
    let f = transcription_form_fields(&q);
    let expect: Vec<(String, String)> = vec![
        ("model".to_string(), "whisper-1".to_string()),
        ("prompt".to_string(), "p".to_string()),
        ("temperature".to_string(), "0.5".to_string()),
        ("language".to_string(), "en".to_string()),
    ];
    assert_eq!(f, expect);
    let q = TranslationRequestBuilder::new().response_format("json".to_string()).build().unwrap();
    let f = translation_form_fields(&q);
    let expect: Vec<(String, String)> = vec![
        ("model".to_string(), "whisper-1".to_string()),
        ("response_format".to_string(), "json".to_string()),
    ];
    assert_eq!(f, expect);
}

#[test]
fn role_names() {
    assert_eq!(Role::default(), Role::User);
    assert_ne!(Role::Assistant, Role::Function);
}
