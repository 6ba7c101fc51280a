//! A localhost reverse proxy core for the Anthropic Messages API: model-based
//! routing, an API-key pool with least-connections selection and cooldowns,
//! and bidirectional protocol transformation for OpenAI- and Gemini-shaped
//! upstreams, including line-oriented SSE rewriting.

pub mod config;
pub mod gemini;
pub mod json;
pub mod jparse;
pub mod jtext;
pub mod openai;
pub mod pipeline;
pub mod pool;
pub mod semaphore;
pub mod sse;
pub mod strutil;
pub mod transformer;
