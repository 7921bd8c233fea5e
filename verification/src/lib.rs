//! Synchronisation core of a chat client: conversation and message
//! reconciliation, the bounded timeline cache, the session loop's decisions
//! and the helpers they share.

pub mod app_state;
pub mod auth;
pub mod bridge;
pub mod cache;
pub mod cells;
pub mod clock;
pub mod codec;
pub mod conversation_laws;
pub mod conversation_list;
pub mod conversation_load;
pub mod housekeeping;
pub mod ids;
pub mod links;
pub mod media;
pub mod message;
pub mod message_cells;
pub mod message_files;
pub mod message_laws;
pub mod message_list;
pub mod qr;
pub mod refresh;
pub mod seqs;
pub mod session_controller;
pub mod shared;
pub mod status;
pub mod text;
pub mod text_map;
pub mod timefmt;
pub mod timeline;
pub mod timeline_laws;
pub mod uploads;
pub mod wire;
