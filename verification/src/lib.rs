//! The message-handling core of an SDK client that drives an agent CLI.

pub mod json;
pub mod errors;
pub mod message_parser;
pub mod client;
