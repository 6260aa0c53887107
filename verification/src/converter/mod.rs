//! Translation between the OpenAI and the Anthropic chat protocols.
pub mod answer_laws;
pub mod anthropic_events;
pub mod builders;
pub mod chat_laws;
pub mod finish_reason;
pub mod reading;
pub mod request_laws;
pub mod responses;
pub mod sse;
pub mod sse_laws;
pub mod stream_laws;
pub mod to_anthropic;
pub mod to_anthropic_request;
pub mod to_openai;
pub mod translate;
pub mod types;
