//! A client library for a large-language-model HTTP API: request records
//! and their validating builders, the fields of what is sent, and the
//! decoder that turns a streamed response body into events.
pub mod builders;
pub mod decimal;
pub mod decoder;
pub mod stream;
pub mod types;
pub mod wire;
