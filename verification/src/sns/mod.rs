//! Amazon SNS: topics, subscriptions and the fan-out of published messages.
pub mod types;
pub mod topic;
pub mod codec;
pub mod handlers;
