//! Amazon SQS: queues and messages.
pub mod types;
pub mod queue;
pub mod engine;
pub mod codec;
pub mod handlers;
