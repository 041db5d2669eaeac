//! Agent Work Model contracts shared by all transports.
pub mod lifecycle;
pub mod error;
pub mod policy;
pub mod resource;
pub mod runtime;
pub mod project;
pub mod work_profile;
pub mod work_session;
