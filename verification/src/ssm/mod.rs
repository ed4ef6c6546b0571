//! AWS Systems Manager Parameter Store.
pub mod types;
pub mod store;
pub mod handlers;
