//! Translation and routing core of a self-hosted gateway between
//! Anthropic-speaking and OpenAI-speaking clients and local workers.

pub mod brain;
pub mod buffer;
pub mod converter;
pub mod digest;
pub mod ids;
pub mod json;
pub mod lmodel;
pub mod ndjson;
pub mod percent;
pub mod strmap;
pub mod text;
pub mod text_laws;
pub mod weburl;
