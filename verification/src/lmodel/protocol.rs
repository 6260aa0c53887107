//! What a worker and the gateway say to each other, as the worker has it.
use vstd::prelude::*;

use crate::brain::protocol::{self, HeartbeatMsg, TaskBundle};

pub use crate::brain::protocol::{
    CancelMessage,
    ChunkMessage,
    ContentPart,
    DoneMessage,
    ErrorMessage,
    FinishReason,
    FunctionDef,
    MessageContent,
    SpecificToolChoice,
    Tool,
    ToolCall,
    ToolCallFunction,
    ToolChoice,
    ToolChoiceFunction,
};

verus! {

pub type TaskMessage = TaskBundle;

pub type ChatMessage = protocol::Message;

pub type HeartbeatMessage = HeartbeatMsg;

/// A worker introduces itself. It names no wire format, so the gateway takes it for an OpenAI
/// one.
pub struct RegisterMessage {
    pub worker_id: String,
    pub model: String,
    pub gpu: String,
    pub vram_free_mb: u32,
    pub max_context: u32,
    pub active_requests: u32,
}

pub enum Message {
    Register(RegisterMessage),
    Heartbeat(HeartbeatMessage),
    Ping,
    Task(TaskMessage),
    Chunk(ChunkMessage),
    Done(DoneMessage),
    Error(ErrorMessage),
    Cancel(CancelMessage),
}

} // verus!
