//! The rules behind the panel's commands.

pub mod agents;
pub mod analytics;
pub mod detect;
pub mod equipment;
pub mod mcp;
pub mod project;
pub mod skills;
