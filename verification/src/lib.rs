//! Mattermost chat for agents: the rules behind the wire.
pub mod admission;
pub mod answer;
pub mod arrival;
pub mod chat;
pub mod config;
pub mod delivery;
pub mod directory;
pub mod error;
pub mod forge;
pub mod frame;
pub mod handoff;
pub mod ident;
pub mod identity;
pub mod intake;
pub mod json;
pub mod model;
pub mod order;
pub mod paths;
pub mod preference;
pub mod provision;
pub mod record;
pub mod relay;
pub mod request;
pub mod rpc;
pub mod secret;
pub mod server;
pub mod session;
pub mod text;
pub mod token;
pub mod utf8;
