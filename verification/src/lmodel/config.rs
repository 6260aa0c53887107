//! What a worker is started with.
use vstd::prelude::*;

verus! {

pub struct Config {
    /// The WebSocket URL of the gateway.
    pub brain: String,
    /// The model's name, as it is reported to the gateway.
    pub model: String,
    /// The port of the model server.
    pub llamacpp_port: u16,
    /// The name of the GPU, for information.
    pub gpu: String,
    /// Free video memory, in MiB.
    pub vram_free_mb: u32,
    /// The context length, where the model server does not tell it.
    pub max_context: u32,
    /// A fresh name for this worker.
    pub worker_id: String,
}

} // verus!
