//! Core of a chat-channel giveaway bot: trigger extraction, a closed command
//! grammar, reply formatting, announcement fanout, and a fairness-bounded
//! event multiplexer.

pub mod codefall;
pub mod command;
pub mod config;
pub mod currency;
pub mod handler;
pub mod mux;
pub mod trigger;
