//! Request building, reply decoding, stream accumulation, the shared
//! pending-reply queue and the chat transcript of a small chat client for a
//! local Ollama server.

mod json;

pub mod pending;
pub mod request;
pub mod stream;
pub mod text;
pub mod transcript;

pub use json::{Fragment, fragment_fields, json_quoted};
