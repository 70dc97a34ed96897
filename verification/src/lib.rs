//! Decoding of chat-line metadata, per-channel command tables, reply
//! routing and the control protocol of a chat bot's event loop.

pub mod command;
pub mod control;
pub mod controller;
pub mod dispatch;
pub mod error;
pub mod message;
pub mod runner;
pub mod settings;
pub mod text;
