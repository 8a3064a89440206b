//! MCP servers configured in the settings.

use vstd::prelude::*;

verus! {

/// How an MCP server is started.
#[derive(Debug, Clone)]
pub struct MCPServerInfo {
    pub command: String,
    pub args: Vec<String>,
}

/// What can be said of an MCP server's connection.
#[derive(Debug, Clone, Copy, PartialEq, Eq, Structural)]
pub enum MCPStatus {
    Connected,
    Disconnected,
    Unknown,
}

/// The status of an MCP server: one that is not configured, or whose
/// command is not installed, is disconnected; otherwise it may be started
/// on demand, so nothing more is known.
pub fn mcp_status(configured: bool, command_exists: bool) -> (r: MCPStatus)
    ensures
        r == (if configured && command_exists {
            MCPStatus::Unknown
        } else {
            MCPStatus::Disconnected
        }),
{
    if configured && command_exists {
        MCPStatus::Unknown
    } else {
        MCPStatus::Disconnected
    }
}

impl MCPStatus {
    /// The status as the panel names it.
    pub fn as_str(&self) -> (r: &'static str)
        ensures
            *self == MCPStatus::Connected ==> r@ == "connected"@,
            *self == MCPStatus::Disconnected ==> r@ == "disconnected"@,
            *self == MCPStatus::Unknown ==> r@ == "unknown"@,
    {
        match self {
            MCPStatus::Connected => "connected",
            MCPStatus::Disconnected => "disconnected",
            MCPStatus::Unknown => "unknown",
        }
    }
}

} // verus!
