use claude_arcade::scanner::claudemd::{scan_claudemd, MemoryFile};
use claude_arcade::scanner::plugin::{scan_plugins, AuthorInfo, InstalledPlugin, PluginMetadata};
use claude_arcade::scanner::settings::{enable_plugin, ClaudeSettings};
use claude_arcade::scanner::skills::{find_skill_md, scan_skills, SkillDir, SkillFrontmatter};
use claude_arcade::scanner::slash_commands::{format_command_name, scan_slash_commands, CommandFile, CommandFrontmatter};
use claude_arcade::scanner::subagents::{format_agent_name, scan_subagents, AgentFile};
use claude_arcade::types::{sort_by_name, ItemRarity, ItemType};

#[test]
fn memory_files() {
    let user = MemoryFile { path: "/home/u/cfg/MEM.md".to_string(), content: "# Rules\n\nBe kind.\n".to_string() };
    let blank = MemoryFile { path: "/p/MEM.md".to_string(), content: "  \n".to_string() };
    let local = MemoryFile { path: "/p/local notes.md".to_string(), content: "just notes".to_string() };
    let items = scan_claudemd(Some(&user), Some(&blank), None, Some(&local));
    assert_eq!(items.len(), 2);
    assert_eq!(items[0].id, "claudemd_user-global__home_u_cfg_MEM_md");
    assert_eq!(items[0].name, "Rules");
    assert_eq!(items[0].description, "Global user memory (applies to all projects) - Be kind.");
    assert_eq!(items[0].rarity, ItemRarity::Epic);
    assert_eq!(items[0].token_weight, 500);
    assert_eq!(items[1].name, "Local Notes");
    assert_eq!(items[1].id, "claudemd_project-local__p_local_notes_md");
    let long = MemoryFile { path: "/".repeat(60), content: "x".to_string() };
    assert_eq!(scan_claudemd(None, Some(&long), None, None)[0].id, format!("claudemd_project-root_{}", "_".repeat(50)));
}

#[test]
fn command_scan() {
    assert_eq!(format_command_name("pr-review.md"), "Pr Review");
    let files = vec![
        CommandFile {
            path: "/u/cmds/zap.md".to_string(),
            file_name: "zap.md".to_string(),
            content: "# Zap\nZaps things".to_string(),
            frontmatter: None,
        },
        CommandFile {
            path: "/u/cmds/build-all.md".to_string(),
            file_name: "build-all.md".to_string(),
            content: "---\nx\n---\n".to_string(),
            frontmatter: Some(CommandFrontmatter { description: None, allowed_tools: Some(vec!["Bash".to_string()]) }),
        },
    ];
    let items = scan_slash_commands(Some(&files), None);
    assert_eq!(items.len(), 2);
    assert_eq!(items[0].name, "Build All");
    assert_eq!(items[0].id, "cmd_user_build-all");
    assert_eq!(items[0].description, "Slash command: /build-all");
    assert_eq!(items[0].rarity, ItemRarity::Rare);
    assert_eq!(items[1].description, "Zaps things");
    assert_eq!(items[1].item_type, ItemType::Ring);
}

#[test]
fn skill_scan() {
    assert_eq!(find_skill_md([false, true, true]), Some("skill.md"));
    assert_eq!(find_skill_md([false, false, false]), None);
    let dirs = vec![SkillDir {
        path: "/p/skills/pdf-tools".to_string(),
        skill_id: "pdf-tools".to_string(),
        content: String::new(),
        frontmatter: Some(SkillFrontmatter { name: None, description: Some("Works with PDFs".to_string()), allowed_tools: None }),
        md_chars: 40_000,
    }];
    let items = scan_skills(None, Some(&dirs));
    assert_eq!(items[0].name, "Pdf Tools");
    assert_eq!(items[0].id, "skill_project_pdf-tools");
    assert_eq!(items[0].description, "Works with PDFs");
    assert_eq!(items[0].token_weight, 11_500);
    assert_eq!(items[0].rarity, ItemRarity::Common);
}

#[test]
fn subagent_scan() {
    assert_eq!(format_agent_name("test-runner.md.md"), "Test Runner");
    let files = vec![AgentFile {
        path: "/u/agents/test-runner.md".to_string(),
        file_name: "test-runner.md".to_string(),
        content: None,
        frontmatter: None,
    }];
    let items = scan_subagents(Some(&files), None);
    assert_eq!(items[0].id, "subagent_user_test-runner");
    assert_eq!(items[0].description, "Subagent: Test Runner (isolated context)");
    assert_eq!(items[0].rarity, ItemRarity::Epic);
    assert_eq!(items[0].token_weight, 200);
    assert_eq!(items[0].item_type, ItemType::Companion);
}

#[test]
fn plugin_scan() {
    let mut settings = ClaudeSettings::new();
    enable_plugin(&mut settings, "lint@market");
    let installed = vec![
        InstalledPlugin {
            id: "lint@market".to_string(),
            install_path: "/i/lint".to_string(),
            version: "1.2.0".to_string(),
            content_chars: Some(8_000),
        },
        InstalledPlugin { id: "bare@other".to_string(), install_path: String::new(), version: "0.1".to_string(), content_chars: None },
    ];
    let catalog = vec![
        (
            "lint@market".to_string(),
            PluginMetadata {
                name: "Linter".to_string(),
                description: "Language Server for lint".to_string(),
                version: None,
                category: Some("productivity".to_string()),
                author: None,
            },
        ),
        (
            "db@market".to_string(),
            PluginMetadata {
                name: "Database".to_string(),
                description: "Talks MCP".to_string(),
                version: Some("2.0".to_string()),
                category: Some("design".to_string()),
                author: Some(AuthorInfo::Text("Anthropic".to_string())),
            },
        ),
    ];
    let items = scan_plugins(&settings, &installed, &catalog);
    let names: Vec<&str> = items.iter().map(|i| i.name.as_str()).collect();
    assert_eq!(names, vec!["bare", "Database", "Linter"]);
    assert_eq!(items[0].description, "Plugin: bare");
    assert_eq!(items[0].token_weight, 5000);
    assert!(!items[0].enabled);
    assert_eq!(items[1].item_type, ItemType::Trinket);
    assert_eq!(items[1].rarity, ItemRarity::Epic);
    assert_eq!(items[1].version.as_deref(), Some("2.0"));
    assert!(!items[1].enabled);
    assert_eq!(items[2].item_type, ItemType::Offhand);
    assert_eq!(items[2].rarity, ItemRarity::Rare);
    assert_eq!(items[2].token_weight, 3000);
    assert!(items[2].enabled);
}

#[test]
fn sorting_is_stable_and_case_blind() {
    let mut items = claude_arcade::scanner::slash_commands::get_builtin_commands();
    items.truncate(3);
    items[0].name = "beta".to_string();
    items[1].name = "Alpha".to_string();
    items[2].name = "BETA".to_string();
    let sorted = sort_by_name(items);
    let names: Vec<&str> = sorted.iter().map(|i| i.name.as_str()).collect();
    assert_eq!(names, vec!["Alpha", "beta", "BETA"]);
}
