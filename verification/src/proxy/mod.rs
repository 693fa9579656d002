//! The request pipeline: circuit breakers, retry, stream observation.

pub mod circuit_breaker;
pub mod handlers;
pub mod logs;
pub mod retry;
pub mod stats;
pub mod stream;
pub mod types;

pub use stream::{StreamResult, StreamUsage};
pub use types::{
    ensure_stream_options, ChatCompletionRequest, ChatCompletionResponse, Message, StreamOptions,
};
