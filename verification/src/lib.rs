//! Cost-aware routing core for an OpenAI-compatible reverse proxy.

pub mod config;
pub mod error;
pub mod json;
pub mod proxy;
pub mod router;
pub mod text;
