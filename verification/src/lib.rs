//! The verified core of a self-hosted Nostr relay plugin: configuration and
//! its validation, the HTTP front of the relay port (request classification,
//! WebSocket handshake, responses), the NIP-11 relay information document,
//! the topology contribution, the management API's answers, and the relay
//! supervisor's decisions.

pub mod api;
pub mod config;
pub mod http;
pub mod nip11;
pub mod supervisor;
pub mod text;
pub mod topology;
