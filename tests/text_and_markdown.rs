use claude_arcade::commands::agents::{
    agent_config, generate_agent_content, parse_agent_file, split_list, AgentConfig, AgentFrontmatter,
};
use claude_arcade::frontmatter::{
    extract_description, extract_description_from_content, extract_title, shorten, split_frontmatter,
    FrontmatterSplit,
};
use claude_arcade::text::{
    capitalize, concat_text, contains_text, decimal_text, ends_with_text, find_text, first_word_of, join_text,
    last_segment_of, lowercase, same_text, split_text, starts_with_text, strip_suffix_text,
    strip_suffixes_text, text_le_exec, title_case_text, trim, uppercase_char,
};

#[test]
fn basic_text_operations() {
    assert!(same_text("abc", "abc"));
    assert!(!same_text("abc", "abd"));
    assert_eq!(trim("  \t hi there \r\n"), "hi there");
    assert_eq!(trim("   "), "");
    assert!(starts_with_text("---\nx", "---"));
    assert!(contains_text("a && b", "&&"));
    assert!(!contains_text("ab", "abc"));
    assert_eq!(find_text("xx---yy---", "---"), Some(2));
    assert_eq!(find_text("abc", "d"), None);
    assert_eq!(concat_text("ab", "cd"), "abcd");
    assert_eq!(decimal_text(0), "0");
    assert_eq!(decimal_text(1203), "1203");
    assert_eq!(first_word_of("  /bin/sh -c x"), Some("/bin/sh"));
    assert_eq!(first_word_of(" \n "), None);
    assert_eq!(last_segment_of("/usr/bin/env"), "env");
    assert_eq!(last_segment_of("dir/"), "");
    assert_eq!(split_text("a--b", '-'), vec!["a", "", "b"]);
    assert_eq!(join_text(&vec!["a".to_string(), "b".to_string()], ", "), "a, b");
    assert!(ends_with_text("x.md", ".md"));
    assert_eq!(strip_suffix_text("x.md.md", ".md"), "x.md");
    assert_eq!(strip_suffixes_text("x.md.md", ".md"), "x");
    assert!(text_le_exec("abc", "abd"));
    assert!(text_le_exec("ab", "abc"));
    assert!(!text_le_exec("b", "abc"));
}

#[test]
fn case_mapping_wrappers_change_text() {
    assert_eq!(lowercase("MiXeD"), "mixed");
    assert_eq!(uppercase_char('ß'), "SS");
    assert_eq!(capitalize("skill"), "Skill");
    assert_eq!(title_case_text("skill-creator"), "Skill Creator");
    assert_eq!(title_case_text("a--b"), "A  B");
}

#[test]
fn frontmatter_split() {
    match split_frontmatter("  ---\nname: x\n---\n\nBody text\n") {
        FrontmatterSplit::Block { yaml, body } => {
            assert_eq!(yaml, "name: x");
            assert_eq!(body, "Body text");
        }
        other => panic!("unexpected {:?}", other),
    }
    assert!(matches!(split_frontmatter("---\nname: x\n"), FrontmatterSplit::Unclosed));
    match split_frontmatter("  just text  ") {
        FrontmatterSplit::Plain(b) => assert_eq!(b, "just text"),
        other => panic!("unexpected {:?}", other),
    }
}

#[test]
fn markdown_titles_and_descriptions() {
    let md = "intro\n#Not a title\n# My Notes \n\nFirst paragraph.\n";
    assert_eq!(extract_title(md), Some("My Notes".to_string()));
    assert_eq!(extract_title("no heading"), None);
    assert_eq!(extract_description(md), "First paragraph.");
    assert_eq!(extract_description("plain"), "Assistant memory and instructions");
    let long = format!("# T\n{}", "x".repeat(200));
    assert_eq!(extract_description(&long), format!("{}...", "x".repeat(150)));
    assert_eq!(shorten("abcdef", 3), "abc...");
    let cmd = "---\ndescription: d\n---\n# Heading\n\n  Does a thing  \n";
    assert_eq!(extract_description_from_content(cmd, 100), Some("Does a thing".to_string()));
    assert_eq!(extract_description_from_content("# only heading", 100), None);
}

#[test]
fn agent_files() {
    assert_eq!(split_list(" Read, ,Write ,Bash"), vec!["Read", "Write", "Bash"]);
    assert!(split_list(" , ").is_empty());
    let fm = AgentFrontmatter {
        name: Some("helper".to_string()),
        description: None,
        tools: Some("Read, Grep".to_string()),
        model: Some("sonnet".to_string()),
        permission_mode: None,
        skills: None,
    };
    let config = agent_config(fm, "Be brief.".to_string());
    assert_eq!(config.name, "helper");
    assert_eq!(config.description, "");
    assert_eq!(config.tools, Some(vec!["Read".to_string(), "Grep".to_string()]));
    assert_eq!(
        generate_agent_content(&config),
        "---\nname: helper\ntools: Read, Grep\nmodel: sonnet\n---\n\nBe brief."
    );
    let bare = AgentConfig {
        name: String::new(),
        description: "d".to_string(),
        tools: Some(Vec::new()),
        model: None,
        permission_mode: Some("plan".to_string()),
        skills: Some(vec!["a".to_string(), "b".to_string()]),
        system_prompt: String::new(),
    };
    assert_eq!(generate_agent_content(&bare), "---\ndescription: d\npermission-mode: plan\nskills: a, b\n---\n\n");
    let plain = parse_agent_file(split_frontmatter("  You help.  "), None).unwrap();
    assert_eq!(plain.system_prompt, "You help.");
    assert!(parse_agent_file(split_frontmatter("---\nname: x"), None).is_none());
    assert!(parse_agent_file(split_frontmatter("---\nname: x\n---\nbody"), None).is_none());
}
