//! Summary of a project folder: its kind and its assistant configuration.

use vstd::prelude::*;

verus! {

/// What a project's configuration folder holds.
#[derive(Debug, Clone, Default)]
pub struct ClaudeItemsSummary {
    pub has_claude_folder: bool,
    pub has_claude_md: bool,
    pub command_count: u32,
    pub skill_count: u32,
    pub hook_count: u32,
    pub subagent_count: u32,
    pub mcp_count: u32,
    pub total_token_estimate: u32,
    pub commands: Vec<String>,
    pub skills: Vec<String>,
    pub subagents: Vec<String>,
}

/// The summary of a project folder.
#[derive(Debug, Clone)]
pub struct ProjectScanResult {
    pub claude_items: ClaudeItemsSummary,
    pub project_type: String,
    pub has_package_json: bool,
    pub has_cargo_toml: bool,
    pub has_pyproject: bool,
    pub has_go_mod: bool,
    pub has_gemfile: bool,
}

/// Which of the files that tell a project's main kind a folder holds.
#[derive(Debug, Clone, Copy)]
pub struct ProjectMarkers {
    pub cargo_toml: bool,
    pub go_mod: bool,
    pub pyproject_toml: bool,
    pub setup_py: bool,
    pub requirements_txt: bool,
    pub gemfile: bool,
    pub pom_xml: bool,
    pub build_gradle: bool,
    pub package_json: bool,
    pub tsconfig_json: bool,
}

/// The main kind of a project, by its files in order of precedence.
pub open spec fn project_kind(m: ProjectMarkers) -> Seq<char> {
    if m.cargo_toml {
        "rust"@
    } else if m.go_mod {
        "go"@
    } else if m.pyproject_toml || m.setup_py || m.requirements_txt {
        "python"@
    } else if m.gemfile {
        "ruby"@
    } else if m.pom_xml || m.build_gradle {
        "java"@
    } else if m.package_json && m.tsconfig_json {
        "typescript"@
    } else if m.package_json {
        "javascript"@
    } else {
        "generic"@
    }
}

/// The main kind of a project.
pub fn detect_project_type(m: &ProjectMarkers) -> (r: String)
    ensures
        r@ == project_kind(*m),
{
    if m.cargo_toml {
        return String::from_str("rust");
    }
    if m.go_mod {
        return String::from_str("go");
    }
    if m.pyproject_toml || m.setup_py || m.requirements_txt {
        return String::from_str("python");
    }
    if m.gemfile {
        return String::from_str("ruby");
    }
    if m.pom_xml || m.build_gradle {
        return String::from_str("java");
    }
    if m.package_json {
        if m.tsconfig_json {
            return String::from_str("typescript");
        }
        return String::from_str("javascript");
    }
    String::from_str("generic")
}

} // verus!
