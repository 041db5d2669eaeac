//! Where the Switchboard catalog is reached.
pub mod config;
pub mod tools;
