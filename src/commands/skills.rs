//! Installed skills and their catalog categories.

use vstd::prelude::*;
use crate::frontmatter::lines_of;
use crate::text::{
    concat_text, has_prefix, same_text, split_text, strip_suffix_text, title_case, title_case_text, views,
    without_suffix,
};

verus! {

/// A skill installed in the user's or a project's skills folder.
#[derive(Debug, Clone)]
pub struct InstalledSkill {
    pub id: String,
    pub name: String,
    pub description: String,
    pub category: String,
    pub path: String,
    pub is_global: bool,
    pub repo_url: String,
    pub version: Option<String>,
}

/// The display name of a skill folder: its kebab-case name in title case.
pub fn format_skill_name(name: &str) -> (r: String)
    ensures
        r@ == title_case(name@),
{
    title_case_text(name)
}

/// The catalog category of a known skill; `other` for the rest.
pub open spec fn skill_category(name: Seq<char>) -> Seq<char> {
    if seq!["docx"@, "pdf"@, "pptx"@, "xlsx"@].contains(name) {
        "documents"@
    } else if seq![
        "algorithmic-art"@,
        "canvas-design"@,
        "frontend-design"@,
        "theme-factory"@,
        "slack-gif-creator"@,
    ].contains(name) {
        "design"@
    } else if seq!["mcp-builder"@, "webapp-testing"@, "web-artifacts-builder"@, "skill-creator"@].contains(
        name,
    ) {
        "development"@
    } else if seq!["brand-guidelines"@, "internal-comms"@, "doc-coauthoring"@].contains(name) {
        "communication"@
    } else {
        "other"@
    }
}

/// The catalog category of a skill.
pub fn categorize_skill(name: &str) -> (r: String)
    ensures
        r@ == skill_category(name@),
{
    let documents = same_text(name, "docx") || same_text(name, "pdf") || same_text(name, "pptx")
        || same_text(name, "xlsx");
    assert(documents == seq!["docx"@, "pdf"@, "pptx"@, "xlsx"@].contains(name@)) by {
        let s = seq!["docx"@, "pdf"@, "pptx"@, "xlsx"@];
        assert(s[0] == "docx"@ && s[1] == "pdf"@ && s[2] == "pptx"@ && s[3] == "xlsx"@);
    }
    if documents {
        return String::from_str("documents");
    }
    let design = same_text(name, "algorithmic-art") || same_text(name, "canvas-design") || same_text(
        name,
        "frontend-design",
    ) || same_text(name, "theme-factory") || same_text(name, "slack-gif-creator");
    assert(design == seq![
        "algorithmic-art"@,
        "canvas-design"@,
        "frontend-design"@,
        "theme-factory"@,
        "slack-gif-creator"@,
    ].contains(name@)) by {
        let s = seq![
            "algorithmic-art"@,
            "canvas-design"@,
            "frontend-design"@,
            "theme-factory"@,
            "slack-gif-creator"@,
        ];
        assert(s[0] == "algorithmic-art"@ && s[1] == "canvas-design"@ && s[2] == "frontend-design"@
            && s[3] == "theme-factory"@ && s[4] == "slack-gif-creator"@);
    }
    if design {
        return String::from_str("design");
    }
    let dev = same_text(name, "mcp-builder") || same_text(name, "webapp-testing") || same_text(
        name,
        "web-artifacts-builder",
    ) || same_text(name, "skill-creator");
    assert(dev == seq!["mcp-builder"@, "webapp-testing"@, "web-artifacts-builder"@, "skill-creator"@].contains(
        name@,
    )) by {
        let s = seq!["mcp-builder"@, "webapp-testing"@, "web-artifacts-builder"@, "skill-creator"@];
        assert(s[0] == "mcp-builder"@ && s[1] == "webapp-testing"@ && s[2] == "web-artifacts-builder"@
            && s[3] == "skill-creator"@);
    }
    if dev {
        return String::from_str("development");
    }
    let comm = same_text(name, "brand-guidelines") || same_text(name, "internal-comms") || same_text(
        name,
        "doc-coauthoring",
    );
    assert(comm == seq!["brand-guidelines"@, "internal-comms"@, "doc-coauthoring"@].contains(name@)) by {
        let s = seq!["brand-guidelines"@, "internal-comms"@, "doc-coauthoring"@];
        assert(s[0] == "brand-guidelines"@ && s[1] == "internal-comms"@ && s[2] == "doc-coauthoring"@);
    }
    if comm {
        return String::from_str("communication");
    }
    String::from_str("other")
}

/// What a skill's `skill.json` says of it.
pub struct SkillMetadata {
    pub name: Option<String>,
    pub description: Option<String>,
    pub category: Option<String>,
    pub version: Option<String>,
}

/// Where a skill's sources are published.
pub open spec fn skill_repo_url(skill_id: Seq<char>) -> Seq<char> {
    "https://github.com/anthropics/skills/tree/main/skills/"@ + skill_id
}

/// The first of the first three lines of a skill's markdown that is
/// neither empty nor a heading.
pub open spec fn md_summary(md: Seq<char>) -> Option<Seq<char>> {
    let ls = lines_of(md);
    if ls.len() > 0 && summary_line(ls[0]) {
        Some(without_suffix(ls[0], "\r"@))
    } else if ls.len() > 1 && summary_line(ls[1]) {
        Some(without_suffix(ls[1], "\r"@))
    } else if ls.len() > 2 && summary_line(ls[2]) {
        Some(without_suffix(ls[2], "\r"@))
    } else {
        None
    }
}

/// Whether a line (without its carriage return) is neither empty nor a
/// heading.
pub open spec fn summary_line(l: Seq<char>) -> bool {
    without_suffix(l, "\r"@).len() > 0 && !has_prefix(without_suffix(l, "\r"@), "#"@)
}

/// The default description of a skill.
pub open spec fn default_skill_description(skill_id: Seq<char>) -> Seq<char> {
    title_case(skill_id) + " skill"@
}

/// `s` is what is known of the installed skill `skill_id` at `path`, from
/// its `skill.json` where that could be read, else from its `skill.md`.
pub open spec fn is_installed_skill(
    s: InstalledSkill,
    skill_id: Seq<char>,
    path: Seq<char>,
    is_global: bool,
    meta: Option<SkillMetadata>,
    md: Option<Seq<char>>,
) -> bool {
    &&& s.id@ == skill_id
    &&& s.path@ == path
    &&& s.is_global == is_global
    &&& s.repo_url@ == skill_repo_url(skill_id)
    &&& match meta {
        Some(m) => {
            &&& s.name@ == match m.name {
                Some(n) => n@,
                None => title_case(skill_id),
            }
            &&& s.description@ == match m.description {
                Some(d) => d@,
                None => default_skill_description(skill_id),
            }
            &&& s.category@ == match m.category {
                Some(c) => c@,
                None => "other"@,
            }
            &&& s.version == m.version
        },
        None => {
            &&& s.name@ == title_case(skill_id)
            &&& s.description@ == match md {
                Some(t) => match md_summary(t) {
                    Some(l) => l,
                    None => default_skill_description(skill_id),
                },
                None => default_skill_description(skill_id),
            }
            &&& s.category@ == skill_category(skill_id)
            &&& s.version is None
        },
    }
}

fn md_summary_exec(md: &str) -> (r: Option<String>)
    ensures
        match md_summary(md@) {
            Some(l) => r is Some && r->Some_0@ == l,
            None => r is None,
        },
{
    let lines = split_text(md, '\n');
    assert(views(lines@) == lines_of(md@));
    let mut i: usize = 0;
    while i < 3 && i < lines.len()
        invariant
            i <= 3,
            i <= lines@.len(),
            views(lines@) == lines_of(md@),
            forall|j: int| 0 <= j < i ==> !summary_line(#[trigger] lines_of(md@)[j]),
        decreases 3 - i,
    {
        let l = strip_suffix_text(lines[i].as_str(), "\r");
        assert(lines_of(md@)[i as int] == lines@[i as int]@);
        if l.unicode_len() > 0 && !crate::text::starts_with_text(l, "#") {
            return Some(String::from_str(l));
        }
        i += 1;
    }
    None
}

fn default_description(skill_id: &str) -> (r: String)
    ensures
        r@ == default_skill_description(skill_id@),
{
    let mut d = format_skill_name(skill_id);
    d.append(" skill");
    d
}

/// What is known of the installed skill `skill_id` at `path`: its
/// `skill.json` where it could be read (`meta`), else the text of its
/// `skill.md` where there is one (`md`).
pub fn read_skill_metadata(
    skill_id: &str,
    path: &str,
    is_global: bool,
    meta: Option<SkillMetadata>,
    md: Option<String>,
) -> (r: InstalledSkill)
    ensures
        is_installed_skill(
            r,
            skill_id@,
            path@,
            is_global,
            meta,
            match md {
                Some(t) => Some(t@),
                None => None,
            },
        ),
{
    let repo_url = concat_text("https://github.com/anthropics/skills/tree/main/skills/", skill_id);
    match meta {
        Some(m) => {
            let name = match &m.name {
                Some(n) => n.clone(),
                None => format_skill_name(skill_id),
            };
            let description = match &m.description {
                Some(d) => d.clone(),
                None => default_description(skill_id),
            };
            let category = match &m.category {
                Some(c) => c.clone(),
                None => String::from_str("other"),
            };
            let version = match &m.version {
                Some(v) => Some(v.clone()),
                None => None,
            };
            InstalledSkill {
                id: String::from_str(skill_id),
                name,
                description,
                category,
                path: String::from_str(path),
                is_global,
                repo_url,
                version,
            }
        },
        None => {
            let description = match &md {
                Some(t) => match md_summary_exec(t.as_str()) {
                    Some(l) => l,
                    None => default_description(skill_id),
                },
                None => default_description(skill_id),
            };
            InstalledSkill {
                id: String::from_str(skill_id),
                name: format_skill_name(skill_id),
                description,
                category: categorize_skill(skill_id),
                path: String::from_str(path),
                is_global,
                repo_url,
                version: None,
            }
        },
    }
}

} // verus!
