//! Amazon SES: identities and sent messages.
pub mod types;
pub mod state;
pub mod handlers;
