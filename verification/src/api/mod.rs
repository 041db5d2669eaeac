//! The mobile/desktop client of the host's REST API: its records, the HTTP
//! exchange it speaks, and how it reads the host's JSON replies.
pub mod models;
pub mod client;
