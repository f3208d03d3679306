//! A resilient client layer for chat-completion services.
//!
//! The library turns the responses of an OpenAI-style service, streamed or
//! complete, into one provider-independent response, and decides what to do
//! when a request fails. It performs no input or output: the caller sends the
//! requests and hands the library what came back.
//!
//! - [`types`]: the provider-independent request and response.
//! - [`json`]: JSON documents as plain data.
//! - [`wire`]: the JSON shapes of the service.
//! - [`stream_model`], [`stream`], [`stream_laws`]: the streaming decoder, its
//!   mathematical model, and what holds of it on every input.
//! - [`decode`]: the decoder of complete responses.
//! - [`rate_limit`]: rate-limit telemetry and the delay it calls for.
//! - [`error`]: the taxonomy of failures and the classifier.
//! - [`retry`]: the retry policy.
//! - [`openai`]: the adapter that builds wire requests.
//! - [`text`]: character-level helpers.

pub mod decode;
pub mod error;
pub mod json;
pub mod openai;
pub mod rate_limit;
pub mod retry;
pub mod stream;
pub mod stream_laws;
pub mod stream_model;
pub mod text;
pub mod types;
pub mod wire;
