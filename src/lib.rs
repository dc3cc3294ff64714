//! A gateway core that turns a chat backend's OpenAI-style answers into
//! Ollama-style records: request mapping, stream transcoding and aggregation.

pub mod json;
pub mod text;
pub mod schema;
pub mod clock;
pub mod transcoder;
pub mod aggregator;
pub mod dispatch;
pub mod catalog;
