//! Recovers a structured function call from the free text that a language
//! model returned, and shapes the chat-completion messages around it.

pub mod balance;
pub mod config;
pub mod extract;
pub mod handlers;
pub mod json;
pub mod models;
pub mod scanner;
pub mod strict;
pub mod text;
