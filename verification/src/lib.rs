//! Core engine of a public-URL tunneling service: the wire codec spoken
//! between client agents and the control server, the handshake and
//! authentication rules, the connection registries, the public edge's
//! routing decisions, the peer-lookup logic for a horizontally scaled
//! fleet, and the client-side stream dispatcher and request capture.
pub mod active_stream;
pub mod auth;
pub mod channel;
pub mod client;
pub mod client_auth;
pub mod clock;
pub mod codec;
pub mod config;
pub mod control_server;
pub mod crypto;
pub mod error;
pub mod hello;
pub mod httphead;
pub mod ids;
pub mod introspect;
pub mod local;
pub mod network;
pub mod random;
pub mod reconnect_token;
pub mod registry;
pub mod remote;
pub mod server_config;
pub mod subdomain;
pub mod text;
pub mod update;
