//! The worker: it takes tasks from the gateway and has a local model server answer them.
pub mod bridge;
pub mod bridge_laws;
pub mod config;
pub mod dechunk;
pub mod protocol;
pub mod registry;
pub mod request;
pub mod router;
pub mod ws;
