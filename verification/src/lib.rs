//! Verified core of the awesometree work-session host: the Agent Work Model
//! (lifecycle, errors, projects, policies), the host-local agent store, bearer
//! token framing and scope rules, daemon command parsing and path helpers.
pub mod text;
pub mod json;
pub mod table;
pub mod numbering;
pub mod sorting;
pub mod decimal;
pub mod crypto;
pub mod model;
pub mod state;
pub mod auth;
pub mod grpc;
pub mod daemon;
pub mod paths;
pub mod interop;
pub mod config;
pub mod runtime_store;
pub mod switchboard;
pub mod api;
pub mod server;
pub mod picker;
pub mod agent_supervisor;
pub mod bezalel;
pub mod arp_store;
pub mod keeper;
pub mod a2a;
pub mod cli;
pub mod cleanup;
pub mod agents_view;
pub mod mcp;
