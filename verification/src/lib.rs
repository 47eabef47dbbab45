//! Chat-automation pipeline: persisted auto-reply rules with regex matching
//! and disambiguation, a per-rule rate limiter, a grapheme-based moderation
//! heuristic, template rendering with a non-empty-output contract, and the
//! prediction lifecycle state machine.

pub mod apis;
pub mod channels;
pub mod gamba;
pub mod handlers;
pub mod npc;
pub mod persistence;
pub mod poor_man_throttling;
pub mod rendering;
pub mod rip_bozo;
pub mod templates_env;
pub mod text;
