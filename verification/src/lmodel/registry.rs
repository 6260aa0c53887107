//! How a worker introduces itself.
use vstd::prelude::*;

use crate::converter::responses;
use crate::json::{self, Json, JsonModel};
use crate::lmodel::config::Config;
use crate::lmodel::protocol::{HeartbeatMessage, RegisterMessage};

verus! {

/// The context length that a model server states of itself, for one slot; none where it states
/// none, or zero.
pub open spec fn stated_context(v: JsonModel) -> Option<u32> {
    match v.field_of_field("default_generation_settings"@, "n_ctx"@) {
        Some(n) => match n.unsigned() {
            Some(n) => if responses::low32(n as int) == 0 {
                None
            } else {
                Some(responses::low32(n as int))
            },
            None => None,
        },
        None => None,
    }
}

/// The context length in a model server's account of itself.
pub fn context_of(props: &Json) -> (r: Option<u32>)
    ensures
        r == stated_context(props@),
{
    match props.get_in("default_generation_settings", "n_ctx") {
        Some(n) => match n.as_u64() {
            Some(n) => {
                let length: u32 = responses::cut32(n);
                if length == 0 {
                    None
                } else {
                    Some(length)
                }
            },
            None => None,
        },
        None => None,
    }
}

/// The context length in the text of a model server's account of itself.
pub fn real_context(body: &str) -> (r: Option<u32>)
    ensures
        r == (match json::json_parse(body@) {
            Some(v) => stated_context(v),
            None => None,
        }),
{
    match json::parse(body) {
        Some(v) => context_of(&v),
        None => None,
    }
}

/// How a worker introduces itself: with the context length that its model server states, or the
/// one that it was started with.
pub fn build_register_msg(cfg: &Config, real_max_context: Option<u32>) -> (r: RegisterMessage)
    ensures
        r.worker_id@ == cfg.worker_id@,
        r.model@ == cfg.model@,
        r.gpu@ == cfg.gpu@,
        r.vram_free_mb == cfg.vram_free_mb,
        r.max_context == (match real_max_context {
            Some(n) => n,
            None => cfg.max_context,
        }),
        r.active_requests == 0,
{
    RegisterMessage {
        worker_id: cfg.worker_id.clone(),
        model: cfg.model.clone(),
        gpu: cfg.gpu.clone(),
        vram_free_mb: cfg.vram_free_mb,
        max_context: match real_max_context {
            Some(n) => n,
            None => cfg.max_context,
        },
        active_requests: 0,
    }
}

/// How often a worker says that it is alive, in seconds.
pub const HEARTBEAT_SECS: u64 = 15;

/// The free video memory that a worker goes on to report, in MiB.
pub const REPORTED_VRAM_MB: u32 = 1024;

/// A sign of life.
pub fn heartbeat(cfg: &Config, active: u32) -> (r: HeartbeatMessage)
    ensures
        r.worker_id@ == cfg.worker_id@,
        r.model@ == cfg.model@,
        r.vram_free_mb == REPORTED_VRAM_MB,
        r.active_requests == active,
{
    HeartbeatMessage {
        worker_id: cfg.worker_id.clone(),
        model: cfg.model.clone(),
        vram_free_mb: REPORTED_VRAM_MB,
        active_requests: active,
    }
}

} // verus!
