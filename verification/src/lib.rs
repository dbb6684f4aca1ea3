//! A multi-room real-time chat engine.
//!
//! The library holds the verified core of the service: the data model and
//! its storage invariants, the user-to-session routing table, the
//! per-connection session logic that authorizes, persists and fans out chat
//! events, the bearer-token and password services, and the request handlers
//! for login, user listing, room creation and message history.
//!
//! Socket handling, JSON framing and the async runtime live outside the
//! library and drive it through the functions exported here.

pub mod api;
pub mod channel;
pub mod cli;
pub mod jwt;
pub mod models;
pub mod password;
pub mod request;
pub mod router;
pub mod session;
pub mod state;
pub mod store;
pub mod websocket_handler;
pub mod ws_message;
