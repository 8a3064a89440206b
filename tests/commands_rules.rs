use claude_arcade::commands::analytics::{
    end_session, get_daily_usage, get_monthly_summary, get_or_create_today, get_weekly_summary,
    record_activity, record_message, start_session, usage_on, AnalyticsData,
};
use claude_arcade::commands::detect::{
    detect_node_package_manager, detect_project_info, parse_package_json, parse_pyproject, ProjectFiles,
    ProjectInfo,
};
use claude_arcade::commands::equipment::{context_status, equip_warnings, equipped_tokens, TOTAL_BUDGET};
use claude_arcade::commands::mcp::{mcp_status, MCPStatus};
use claude_arcade::commands::project::{detect_project_type, ProjectMarkers};
use claude_arcade::commands::skills::{categorize_skill, format_skill_name, read_skill_metadata, SkillMetadata};
use claude_arcade::scanner::slash_commands::get_builtin_commands;

fn strings(v: &[&str]) -> Vec<String> {
    v.iter().map(|s| s.to_string()).collect()
}

#[test]
fn package_managers() {
    assert_eq!(detect_node_package_manager(true, true, true), "pnpm");
    assert_eq!(detect_node_package_manager(false, true, true), "yarn");
    assert_eq!(detect_node_package_manager(false, false, true), "bun");
    assert_eq!(detect_node_package_manager(false, false, false), "npm");
}

#[test]
fn package_json_dependencies() {
    let mut info = ProjectInfo::new();
    parse_package_json(&strings(&["React", "react-dom", "next", "TypeScript", "jest", "eslint"]), &mut info);
    assert_eq!(info.frameworks, strings(&["react", "nextjs"]));
    assert_eq!(info.languages, strings(&["typescript"]));
    assert!(info.has_typescript && info.has_tests && info.has_eslint && !info.has_prettier);
}

#[test]
fn pyproject_detection() {
    let mut info = ProjectInfo::new();
    parse_pyproject("[deps]\nDjango = '*'\nFastAPI\n[dev]\npytest", &mut info);
    assert_eq!(info.frameworks, strings(&["django", "fastapi"]));
    assert!(info.has_tests);
}

fn no_files() -> ProjectFiles {
    ProjectFiles {
        package_json: false,
        package_deps: None,
        pnpm_lock: false,
        yarn_lock: false,
        bun_lockb: false,
        cargo_toml: false,
        pyproject_toml: false,
        pyproject_content: None,
        setup_py: false,
        go_mod: false,
        tsconfig_json: false,
        eslint_config: false,
        prettier_config: false,
        test_dir: false,
    }
}

#[test]
fn project_info_from_files() {
    let mut files = no_files();
    files.package_json = true;
    files.yarn_lock = true;
    files.package_deps = Some(strings(&["vue", "typescript"]));
    files.cargo_toml = true;
    files.tsconfig_json = true;
    files.test_dir = true;
    let info = detect_project_info(&files);
    assert_eq!(info.languages, strings(&["javascript", "typescript", "rust"]));
    assert_eq!(info.frameworks, strings(&["vue", "rust"]));
    assert_eq!(info.package_manager.as_deref(), Some("yarn"));
    assert!(info.has_typescript && info.has_tests);
    let empty = detect_project_info(&no_files());
    assert!(empty.languages.is_empty() && empty.package_manager.is_none());
}

#[test]
fn project_kinds() {
    let none = ProjectMarkers {
        cargo_toml: false,
        go_mod: false,
        pyproject_toml: false,
        setup_py: false,
        requirements_txt: false,
        gemfile: false,
        pom_xml: false,
        build_gradle: false,
        package_json: false,
        tsconfig_json: false,
    };
    assert_eq!(detect_project_type(&none), "generic");
    assert_eq!(detect_project_type(&ProjectMarkers { package_json: true, tsconfig_json: true, ..none }), "typescript");
    assert_eq!(detect_project_type(&ProjectMarkers { package_json: true, ..none }), "javascript");
    assert_eq!(detect_project_type(&ProjectMarkers { go_mod: true, package_json: true, ..none }), "go");
    assert_eq!(detect_project_type(&ProjectMarkers { requirements_txt: true, gemfile: true, ..none }), "python");
    assert_eq!(detect_project_type(&ProjectMarkers { build_gradle: true, ..none }), "java");
}

#[test]
fn skill_catalog() {
    assert_eq!(format_skill_name("web-artifacts-builder"), "Web Artifacts Builder");
    assert_eq!(categorize_skill("pdf"), "documents");
    assert_eq!(categorize_skill("theme-factory"), "design");
    assert_eq!(categorize_skill("skill-creator"), "development");
    assert_eq!(categorize_skill("internal-comms"), "communication");
    assert_eq!(categorize_skill("mine"), "other");
    let s = read_skill_metadata("my-skill", "/p/my-skill", true, None, Some("# Title\n\nSummary line\r\nmore".to_string()));
    assert_eq!(s.name, "My Skill");
    assert_eq!(s.description, "Summary line");
    assert_eq!(s.category, "other");
    assert_eq!(s.repo_url, "https://github.com/anthropics/skills/tree/main/skills/my-skill");
    let meta = SkillMetadata { name: None, description: None, category: Some("design".to_string()), version: Some("1.0".to_string()) };
    let t = read_skill_metadata("pdf", "/p/pdf", false, Some(meta), None);
    assert_eq!(t.name, "Pdf");
    assert_eq!(t.description, "Pdf skill");
    assert_eq!(t.category, "design");
    assert_eq!(t.version.as_deref(), Some("1.0"));
}

#[test]
fn usage_counters() {
    let mut data = AnalyticsData::default();
    start_session(&mut data, "s1".to_string(), 1_700_000_000, "2024-05-06");
    record_message(&mut data, "2024-05-06", 120, 2);
    record_message(&mut data, "2024-05-06", 30, 0);
    record_activity(&mut data, "2024-05-07", 15);
    let session = data.current_session.clone().unwrap();
    assert_eq!((session.messages, session.tokens, session.tools), (2, 150, 2));
    assert_eq!(data.daily_usage.len(), 2);
    let i = get_or_create_today(&mut data, "2024-05-06");
    assert_eq!(i, 0);
    let day = &data.daily_usage[0];
    assert_eq!((day.sessions, day.messages, day.estimated_tokens, day.tools_used), (1, 2, 150, 2));
    assert_eq!(usage_on(&data, "2024-05-07").active_minutes, 15);
    assert_eq!(usage_on(&data, "2024-01-01").messages, 0);
    let dates = strings(&["2024-05-06", "2024-05-07", "2024-05-08"]);
    let days = get_daily_usage(&data, &dates);
    assert_eq!(days[2].date, "2024-05-08");
    let week = get_weekly_summary(&data, &dates);
    assert_eq!(week.week_start, "2024-05-06");
    assert_eq!(week.week_end, "2024-05-08");
    assert_eq!((week.total_sessions, week.total_messages, week.total_tokens, week.total_minutes), (1, 2, 150, 15));
    let month = get_monthly_summary(&data, "2024-05".to_string(), &dates);
    assert_eq!(month.total_minutes, 15);
    end_session(&mut data);
    assert!(data.current_session.is_none());
}

#[test]
fn context_load() {
    assert_eq!(context_status(49_999, TOTAL_BUDGET), "healthy");
    assert_eq!(context_status(50_000, TOTAL_BUDGET), "heavy");
    assert_eq!(context_status(100_000, TOTAL_BUDGET), "dumbzone");
    assert_eq!(equip_warnings("heavy").len(), 1);
    assert!(equip_warnings("healthy").is_empty());
    let mut items = get_builtin_commands();
    items[0].token_weight = 700;
    items[1].token_weight = 300;
    items[1].enabled = false;
    assert_eq!(equipped_tokens(&items), 700);
}

#[test]
fn mcp_statuses() {
    assert_eq!(mcp_status(true, true), MCPStatus::Unknown);
    assert_eq!(mcp_status(true, false), MCPStatus::Disconnected);
    assert_eq!(mcp_status(false, true).as_str(), "disconnected");
}
