//! The gateway: it takes requests of both chat protocols and hands them to workers.
pub mod accept;
pub mod anthropic_blocking;
pub mod anthropic_stream;
pub mod api;
pub mod auth;
pub mod calendar;
pub mod chat_blocking;
pub mod chat_stream;
pub mod config;
pub mod convert;
pub mod edge_laws;
pub mod egress;
pub mod egress_laws;
pub mod estimate_laws;
pub mod holdback;
pub mod hosted_laws;
pub mod hosted_tools;
pub mod html;
pub mod http;
pub mod idempotency;
pub mod management;
pub mod messages;
pub mod metrics;
pub mod metrics_laws;
pub mod plan;
pub mod protocol;
pub mod refusal_laws;
pub mod registry;
pub mod registry_laws;
pub mod router;
pub mod task_laws;
pub mod text_calls;
pub mod time_laws;
pub mod tool_calls;
pub mod tunnel;
pub mod turn;
pub mod turn_laws;
