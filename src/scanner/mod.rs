//! Rules that turn configuration files into inventory items.

pub mod claudemd;
pub mod hooks;
pub mod plugin;
pub mod settings;
pub mod skills;
pub mod slash_commands;
pub mod subagents;
pub mod weight;
