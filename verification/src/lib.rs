//! Binds Telegram bots to local markdown files: the rules by which a message
//! becomes a timestamped line, a file lands in a folder, and neither is ever
//! saved twice.

pub mod chunk;
pub mod clock;
pub mod commands;
pub mod config;
pub mod daily;
pub mod download;
pub mod endpoint;
pub mod form;
pub mod inbox;
pub mod journal;
pub mod json;
pub mod names;
pub mod notes;
pub mod number;
pub mod paths;
pub mod poll;
pub mod redact;
pub mod server;
pub mod size;
pub mod status;
pub mod table;
pub mod telegram;
pub mod text;
pub mod tray;
pub mod worker;
