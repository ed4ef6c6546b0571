//! The DNS service: hosted zones and their record sets.
pub mod handlers;
pub mod state;
pub mod types;
