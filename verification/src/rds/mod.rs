//! The relational database service: instances, clusters and snapshots.
pub mod handlers;
pub mod state;
pub mod types;
