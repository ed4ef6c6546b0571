//! The data warehouse service: clusters and their snapshots.
pub mod handlers;
pub mod state;
pub mod types;
