//! Verified core logic of the chat room server: validation, authorization
//! decisions, projections and renderers that the HTTP and WebSocket layers call.
pub mod accounts;
pub mod forwarding;
pub mod global_search;
pub mod handshake;
pub mod history;
pub mod http;
pub mod interop;
pub mod knowledge;
pub mod membership;
pub mod messages;
pub mod notifications;
pub mod observability;
pub mod push;
pub mod reactions;
pub mod realtime;
pub mod room_listing;
pub mod services;
pub mod rooms;
pub mod socket;
pub mod startup;
pub mod text;
