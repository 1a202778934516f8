//! A client-side mirror of a chat service's remote state, updated event by event,
//! together with the request builders and the command-argument tokenizer that sit
//! around it.

pub mod model;
pub mod guild;
pub mod cache;
pub mod channel_events;
pub mod threads;
pub mod message_events;
pub mod guild_events;
pub mod member_events;
pub mod session_events;
pub mod laws;
pub mod builder;
pub mod text;
pub mod lexer;
pub mod args;
pub mod interaction;
