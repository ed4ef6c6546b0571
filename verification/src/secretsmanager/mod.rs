//! AWS Secrets Manager.
pub mod types;
pub mod store;
pub mod handlers;
