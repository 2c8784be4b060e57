//! Command-message parsing: a quote-aware tokenizer that splits a chat
//! message into a command name and its arguments.

pub mod chars;
pub mod message;
pub mod laws;
pub mod command;
