use claude_arcade::scanner::claudemd::{estimate_claudemd_weight, ClaudeMdScope};
use claude_arcade::scanner::hooks::{
    determine_hook_rarity, estimate_hook_weight, format_command, generate_hook_description,
    generate_hook_name, scan_hooks, scan_hooks_from_settings, CommandValue, HookConfig, HookEntry,
    HookEvent, HookScope,
};
use claude_arcade::scanner::plugin::{category_to_item_type, determine_rarity, AuthorInfo, PluginMetadata};
use claude_arcade::scanner::settings::{disable_plugin, enable_plugin, ClaudeSettings};
use claude_arcade::scanner::skills::{determine_skill_rarity, SkillFrontmatter, SkillScope};
use claude_arcade::scanner::slash_commands::{
    determine_command_rarity, estimate_command_weight, get_builtin_commands, CommandFrontmatter,
    CommandScope,
};
use claude_arcade::scanner::subagents::{determine_subagent_rarity, SubagentFrontmatter, SubagentScope};
use claude_arcade::types::{EquipmentSlotType, ItemRarity, ItemType, SlotLimits};

fn full(matcher: Option<&str>, command: Option<CommandValue>, prompt: Option<&str>) -> HookConfig {
    HookConfig::Full(HookEntry {
        matcher: matcher.map(|m| m.to_string()),
        command,
        prompt: prompt.map(|p| p.to_string()),
        timeout: None,
    })
}

#[test]
fn hook_event_names_round_trip() {
    for e in [
        HookEvent::PreToolUse,
        HookEvent::PostToolUse,
        HookEvent::SessionStart,
        HookEvent::Stop,
        HookEvent::UserPromptSubmit,
        HookEvent::PermissionRequest,
    ] {
        assert_eq!(HookEvent::from_str(e.as_str()), Some(e));
        assert_eq!(e.item_type(), ItemType::Hooks);
    }
    assert_eq!(HookEvent::from_str("Notification"), None);
    assert_eq!(HookScope::Project.as_str(), "project");
}

#[test]
fn hook_rarity_rules() {
    assert_eq!(determine_hook_rarity(&HookEvent::PreToolUse, true, "x"), ItemRarity::Rare);
    assert_eq!(determine_hook_rarity(&HookEvent::Stop, false, "a && b"), ItemRarity::Rare);
    assert_eq!(determine_hook_rarity(&HookEvent::Stop, false, &"x".repeat(51)), ItemRarity::Rare);
    assert_eq!(determine_hook_rarity(&HookEvent::Stop, false, &"x".repeat(50)), ItemRarity::Common);
    assert_eq!(determine_hook_rarity(&HookEvent::PostToolUse, false, "fmt"), ItemRarity::Uncommon);
    assert_eq!(determine_hook_rarity(&HookEvent::PreToolUse, false, "fmt"), ItemRarity::Common);
}

#[test]
fn hook_weight_is_clamped() {
    assert_eq!(estimate_hook_weight(""), 500);
    assert_eq!(estimate_hook_weight("12345678"), 502);
    assert_eq!(estimate_hook_weight(&"x".repeat(100_000)), 5000);
}

#[test]
fn hook_names() {
    let none: Option<String> = None;
    assert_eq!(
        generate_hook_name(&HookEvent::PreToolUse, &Some("Bash".to_string()), "x", 0),
        "PreToolUse Guard: Bash"
    );
    assert_eq!(generate_hook_name(&HookEvent::PostToolUse, &none, "npx eslint --fix", 0), "PostToolUse: ESLint");
    assert_eq!(generate_hook_name(&HookEvent::PostToolUse, &none, "prettier -w .", 0), "PostToolUse: Prettier");
    assert_eq!(generate_hook_name(&HookEvent::Stop, &none, "git status", 0), "Stop: Git");
    assert_eq!(
        generate_hook_name(&HookEvent::SessionStart, &none, "  /usr/local/bin/notify now", 1),
        "SessionStart: notify"
    );
    assert_eq!(generate_hook_name(&HookEvent::Stop, &none, "   ", 0), "Stop: Hook");
}

#[test]
fn hook_descriptions() {
    assert_eq!(
        generate_hook_description(&HookEvent::Stop, &None, "say bye"),
        "Intercepts exit attempts. Runs: say bye"
    );
    assert_eq!(
        generate_hook_description(&HookEvent::PreToolUse, &Some("Edit".to_string()), "check"),
        "Guards operations before execution. Matches: Edit. Runs: check"
    );
}

#[test]
fn command_values_format() {
    assert_eq!(format_command(&CommandValue::Text("ls -la".to_string())), "ls -la");
    assert_eq!(
        format_command(&CommandValue::Parts(vec![
            Some("npm".to_string()),
            None,
            Some("run".to_string()),
            Some("lint".to_string()),
        ])),
        "npm run lint"
    );
    assert_eq!(format_command(&CommandValue::Parts(vec![None])), "");
    assert_eq!(format_command(&CommandValue::Other("42".to_string())), "42");
    assert_eq!(
        full(None, None, Some("review this")).get_command(),
        Some("(prompt) review this".to_string())
    );
    assert_eq!(full(Some("Bash"), None, None).get_command(), None);
    assert_eq!(full(Some("Bash"), None, None).get_matcher(), Some("Bash".to_string()));
    assert_eq!(HookConfig::CommandOnly("ls".to_string()).get_matcher(), None);
}

#[test]
fn hooks_from_settings() {
    let settings = vec![
        (
            "PostToolUse".to_string(),
            vec![
                full(Some("Edit"), Some(CommandValue::Text("prettier -w".to_string())), None),
                full(None, None, None),
                HookConfig::CommandOnly("eslint .".to_string()),
            ],
        ),
        ("Unknown".to_string(), vec![HookConfig::CommandOnly("x".to_string())]),
    ];
    let items = scan_hooks_from_settings(&settings, HookScope::User);
    assert_eq!(items.len(), 2);
    assert_eq!(items[0].id, "hook_user_posttooluse_0");
    assert_eq!(items[0].name, "PostToolUse Guard: Edit");
    assert_eq!(items[0].rarity, ItemRarity::Uncommon);
    assert_eq!(items[0].token_weight, 502);
    assert_eq!(items[1].id, "hook_user_posttooluse_2");
    assert_eq!(items[1].name, "PostToolUse: ESLint");
    assert!(items[1].enabled);
    assert_eq!(items[1].source_path, "");
}

#[test]
fn scan_hooks_sorts_by_lower_case_name() {
    let user = vec![("Stop".to_string(), vec![HookConfig::CommandOnly("zsh-cleanup".to_string())])];
    let project = vec![(
        "PreToolUse".to_string(),
        vec![HookConfig::CommandOnly("audit".to_string())],
    )];
    let items = scan_hooks(Some(&user), Some(&project));
    let names: Vec<&str> = items.iter().map(|i| i.name.as_str()).collect();
    assert_eq!(names, vec!["PreToolUse: audit", "Stop: zsh-cleanup"]);
    assert_eq!(items[0].id, "hook_project_pretooluse_0");
    assert!(scan_hooks(None, None).is_empty());
}

#[test]
fn builtin_commands() {
    let b = get_builtin_commands();
    assert_eq!(b.len(), 17);
    assert_eq!(b[0].id, "builtin_context");
    assert_eq!(b[0].name, "/context");
    assert_eq!(b[16].description, "Clear conversation");
    assert_eq!(b[3].author.as_deref(), Some("Anthropic"));
    assert_eq!(b[5].token_weight, 0);
}

#[test]
fn command_rules() {
    let tools = |n: usize| Some(CommandFrontmatter { description: None, allowed_tools: Some(vec!["t".to_string(); n]) });
    assert_eq!(determine_command_rarity(&None, CommandScope::Plugin), ItemRarity::Rare);
    assert_eq!(determine_command_rarity(&tools(4), CommandScope::User), ItemRarity::Epic);
    assert_eq!(determine_command_rarity(&tools(1), CommandScope::Project), ItemRarity::Rare);
    assert_eq!(determine_command_rarity(&tools(0), CommandScope::User), ItemRarity::Uncommon);
    assert_eq!(determine_command_rarity(&None, CommandScope::Project), ItemRarity::Common);
    assert_eq!(estimate_command_weight(""), 500);
    assert_eq!(estimate_command_weight("abcdefgh"), 502);
    assert_eq!(estimate_command_weight(&"x".repeat(100_000)), 10000);
    assert_eq!(CommandScope::Plugin.as_str(), "plugin");
}

#[test]
fn skill_and_subagent_rules() {
    let fm = |n: usize| Some(SkillFrontmatter { name: None, description: None, allowed_tools: Some(vec!["t".to_string(); n]) });
    assert_eq!(determine_skill_rarity(&None, SkillScope::User, "mcp-builder"), ItemRarity::Legendary);
    assert_eq!(determine_skill_rarity(&None, SkillScope::User, "frontend-design"), ItemRarity::Epic);
    assert_eq!(determine_skill_rarity(&fm(6), SkillScope::Project, "x"), ItemRarity::Epic);
    assert_eq!(determine_skill_rarity(&fm(3), SkillScope::Project, "x"), ItemRarity::Rare);
    assert_eq!(determine_skill_rarity(&fm(2), SkillScope::User, "x"), ItemRarity::Uncommon);
    assert_eq!(determine_skill_rarity(&None, SkillScope::Project, "x"), ItemRarity::Common);
    let agent = |tools: usize, skills: usize, model: bool| {
        Some(SubagentFrontmatter {
            name: None,
            description: None,
            tools: Some(vec!["t".to_string(); tools]),
            model: if model { Some("opus".to_string()) } else { None },
            permission_mode: None,
            skills: Some(vec!["s".to_string(); skills]),
        })
    };
    assert_eq!(determine_subagent_rarity(&None, SubagentScope::User, "architect"), ItemRarity::Legendary);
    assert_eq!(determine_subagent_rarity(&None, SubagentScope::User, "test-runner"), ItemRarity::Epic);
    assert_eq!(determine_subagent_rarity(&agent(5, 4, false), SubagentScope::User, "x"), ItemRarity::Epic);
    assert_eq!(determine_subagent_rarity(&agent(3, 2, false), SubagentScope::User, "x"), ItemRarity::Rare);
    assert_eq!(determine_subagent_rarity(&agent(0, 0, true), SubagentScope::Project, "x"), ItemRarity::Rare);
    assert_eq!(determine_subagent_rarity(&agent(0, 0, false), SubagentScope::Project, "x"), ItemRarity::Common);
    assert_eq!(determine_subagent_rarity(&None, SubagentScope::User, "x"), ItemRarity::Uncommon);
}

#[test]
fn memory_file_rules() {
    assert_eq!(ClaudeMdScope::UserGlobal.rarity(), ItemRarity::Epic);
    assert_eq!(ClaudeMdScope::ProjectLocal.rarity(), ItemRarity::Uncommon);
    assert_eq!(ClaudeMdScope::ProjectClaude.as_str(), "project-config");
    assert_eq!(ClaudeMdScope::ProjectRoot.description(), "Project memory (shared with team via git)");
    assert_eq!(estimate_claudemd_weight("short"), 500);
    assert_eq!(estimate_claudemd_weight(&"x".repeat(4000)), 1000);
    assert_eq!(estimate_claudemd_weight(&"x".repeat(400_000)), 50000);
}

#[test]
fn plugin_rules() {
    assert_eq!(category_to_item_type(None), ItemType::Mainhand);
    assert_eq!(category_to_item_type(Some("productivity")), ItemType::Offhand);
    assert_eq!(category_to_item_type(Some("design")), ItemType::Spell);
    assert_eq!(category_to_item_type(Some("security")), ItemType::Hooks);
    assert_eq!(category_to_item_type(Some("mcp")), ItemType::Trinket);
    assert_eq!(category_to_item_type(Some("other")), ItemType::Mainhand);
    let meta = |author: &str| PluginMetadata {
        name: "p".to_string(),
        description: "d".to_string(),
        version: None,
        category: None,
        author: Some(AuthorInfo::Object { name: author.to_string() }),
    };
    assert_eq!(determine_rarity(None, false, true), ItemRarity::Epic);
    assert_eq!(determine_rarity(None, true, false), ItemRarity::Rare);
    assert_eq!(determine_rarity(Some(&meta("ANTHROPIC PBC")), false, false), ItemRarity::Rare);
    assert_eq!(determine_rarity(Some(&meta("someone")), false, false), ItemRarity::Common);
    assert_eq!(AuthorInfo::Text("me".to_string()).name(), "me");
}

#[test]
fn plugin_settings_enable_and_disable() {
    let mut s = ClaudeSettings::new();
    assert!(!s.is_enabled("a@m"));
    enable_plugin(&mut s, "a@m");
    enable_plugin(&mut s, "b@m");
    assert!(s.is_enabled("a@m"));
    s.set("a@m", false);
    assert!(!s.is_enabled("a@m"));
    assert!(s.is_enabled("b@m"));
    disable_plugin(&mut s, "b@m");
    assert!(!s.is_enabled("b@m"));
    assert_eq!(s.enabled_plugins.len(), 1);
}

#[test]
fn slot_types_and_limits() {
    assert_eq!(ItemType::Ring.to_slot_type(), EquipmentSlotType::Rings);
    assert_eq!(ItemType::Spell.to_slot_type(), EquipmentSlotType::Spellbook);
    assert_eq!(ItemType::Companion.to_slot_type(), EquipmentSlotType::Companions);
    assert_eq!(SlotLimits::standard().rings, 2);
    assert_eq!(SlotLimits::standard().hooks, 6);
}
