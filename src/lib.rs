//! Verified core of a desktop control panel for a local AI assistant.
//!
//! - [`pty`]: the multiplexed pseudo-terminal session manager, with the
//!   output relay and exit watcher that drive each session's workers.
//! - [`scanner`]: the rules that turn configuration files (plugins, hooks,
//!   skills, commands, subagents, memory files) into inventory items.
//! - [`commands`]: the rules behind the panel's other commands: agent files,
//!   project detection, usage counters, context load.
//! - [`frontmatter`] and [`text`]: markdown and string operations the rules
//!   are stated over.
//! - [`types`]: inventory items and equipment slots.

pub mod commands;
pub mod frontmatter;
pub mod pty;
pub mod scanner;
pub mod text;
pub mod types;
