//! Models of the external collaborators' records, reduced to plain values:
//! the static champion reference data, the stat-lookup records, and the chat
//! platform's sender-role test. The transports that fill them live outside
//! the library.

pub mod ddragon;
pub mod op_gg;
pub mod twitch;
