//! Agent files: front matter with comma-separated lists, then the system
//! prompt.

use vstd::prelude::*;
use vstd::string::*;
use crate::frontmatter::FrontmatterSplit;
use crate::text::{join_text, join_with, pieces, push_char, trim, trimmed, views};

verus! {

/// An agent's configuration.
#[derive(Debug, Clone)]
pub struct AgentConfig {
    pub name: String,
    pub description: String,
    pub tools: Option<Vec<String>>,
    pub model: Option<String>,
    pub permission_mode: Option<String>,
    pub skills: Option<Vec<String>>,
    pub system_prompt: String,
}

/// An agent with where its file lives.
#[derive(Debug, Clone)]
pub struct AgentData {
    pub id: String,
    pub file_path: String,
    pub is_global: bool,
    pub config: AgentConfig,
}

/// The front matter of an agent file as written: lists are single
/// comma-separated strings.
pub struct AgentFrontmatter {
    pub name: Option<String>,
    pub description: Option<String>,
    pub tools: Option<String>,
    pub model: Option<String>,
    pub permission_mode: Option<String>,
    pub skills: Option<String>,
}

/// The trimmed pieces that are not empty, in order.
pub open spec fn kept_pieces(ps: Seq<Seq<char>>) -> Seq<Seq<char>>
    decreases ps.len(),
{
    if ps.len() == 0 {
        Seq::empty()
    } else if trimmed(ps.last()).len() > 0 {
        kept_pieces(ps.drop_last()).push(trimmed(ps.last()))
    } else {
        kept_pieces(ps.drop_last())
    }
}

/// The entries of a comma-separated list: trimmed, empty ones dropped.
pub open spec fn list_entries(s: Seq<char>) -> Seq<Seq<char>> {
    kept_pieces(pieces(s, ','))
}

/// The entries of a comma-separated list.
pub fn split_list(s: &str) -> (r: Vec<String>)
    ensures
        views(r@) == list_entries(s@),
{
    let n = s.unicode_len();
    let mut out: Vec<String> = Vec::new();
    let mut cur = String::new();
    let mut i: usize = 0;
    assert(s@.take(0) =~= Seq::<char>::empty());
    while i < n
        invariant
            n == s@.len(),
            i <= n,
            pieces(s@.take(i as int), ',').len() >= 1,
            views(out@) == kept_pieces(pieces(s@.take(i as int), ',').drop_last()),
            cur@ == pieces(s@.take(i as int), ',').last(),
        decreases n - i,
    {
        let c = s.get_char(i);
        let ghost ps = pieces(s@.take(i as int), ',');
        assert(s@.take(i + 1).drop_last() =~= s@.take(i as int));
        assert(s@.take(i + 1).last() == c);
        if c == ',' {
            let piece = trim(cur.as_str());
            if piece.unicode_len() > 0 {
                out.push(String::from_str(piece));
            }
            assert(ps.push(Seq::<char>::empty()).drop_last() =~= ps);
            assert(ps.drop_last().push(ps.last()) =~= ps);
            assert(views(out@) =~= kept_pieces(ps));
            cur = String::new();
        } else {
            push_char(&mut cur, c);
            assert(ps.update(ps.len() - 1, ps.last().push(c)).drop_last() =~= ps.drop_last());
        }
        i += 1;
    }
    let ghost ps = pieces(s@.take(n as int), ',');
    let piece = trim(cur.as_str());
    if piece.unicode_len() > 0 {
        out.push(String::from_str(piece));
    }
    assert(s@.take(n as int) =~= s@);
    assert(ps.drop_last().push(ps.last()) =~= ps);
    assert(views(out@) =~= kept_pieces(ps));
    out
}

/// The view of an optional string, or the empty sequence.
pub open spec fn or_empty(o: Option<String>) -> Seq<char> {
    match o {
        Some(s) => s@,
        None => Seq::empty(),
    }
}

/// `config` is what an agent file with front matter `fm` and body `body`
/// describes.
pub open spec fn is_agent_config(config: AgentConfig, fm: AgentFrontmatter, body: Seq<char>) -> bool {
    &&& config.name@ == or_empty(fm.name)
    &&& config.description@ == or_empty(fm.description)
    &&& match fm.tools {
        Some(t) => config.tools is Some && views(config.tools->Some_0@) == list_entries(t@),
        None => config.tools is None,
    }
    &&& config.model == fm.model
    &&& config.permission_mode == fm.permission_mode
    &&& match fm.skills {
        Some(t) => config.skills is Some && views(config.skills->Some_0@) == list_entries(t@),
        None => config.skills is None,
    }
    &&& config.system_prompt@ == body
}

fn string_or_empty(o: Option<String>) -> (r: String)
    ensures
        r@ == or_empty(o),
{
    match o {
        Some(s) => s,
        None => String::new(),
    }
}

fn list_of(o: &Option<String>) -> (r: Option<Vec<String>>)
    ensures
        match *o {
            Some(t) => r is Some && views(r->Some_0@) == list_entries(t@),
            None => r is None,
        },
{
    match o {
        Some(t) => Some(split_list(t.as_str())),
        None => None,
    }
}

/// The configuration an agent file with front matter `fm` and body `body`
/// describes.
pub fn agent_config(fm: AgentFrontmatter, body: String) -> (r: AgentConfig)
    ensures
        is_agent_config(r, fm, body@),
{
    let tools = list_of(&fm.tools);
    let skills = list_of(&fm.skills);
    AgentConfig {
        name: string_or_empty(fm.name),
        description: string_or_empty(fm.description),
        tools,
        model: fm.model,
        permission_mode: fm.permission_mode,
        skills,
        system_prompt: body,
    }
}

/// The configuration of an agent file without front matter: all of it,
/// trimmed, is the system prompt.
pub fn plain_agent_config(body: String) -> (r: AgentConfig)
    ensures
        r.name@.len() == 0,
        r.description@.len() == 0,
        r.tools is None,
        r.model is None,
        r.permission_mode is None,
        r.skills is None,
        r.system_prompt@ == body@,
{
    AgentConfig {
        name: String::new(),
        description: String::new(),
        tools: None,
        model: None,
        permission_mode: None,
        skills: None,
        system_prompt: body,
    }
}

/// The lines of the file for an agent.
pub open spec fn agent_lines(c: AgentConfig) -> Seq<Seq<char>> {
    seq!["---"@] + (if c.name@.len() > 0 {
        seq!["name: "@ + c.name@]
    } else {
        Seq::empty()
    }) + (if c.description@.len() > 0 {
        seq!["description: "@ + c.description@]
    } else {
        Seq::empty()
    }) + (if c.tools is Some && c.tools->Some_0@.len() > 0 {
        seq!["tools: "@ + join_with(views(c.tools->Some_0@), ", "@)]
    } else {
        Seq::empty()
    }) + (if c.model is Some {
        seq!["model: "@ + c.model->Some_0@]
    } else {
        Seq::empty()
    }) + (if c.permission_mode is Some {
        seq!["permission-mode: "@ + c.permission_mode->Some_0@]
    } else {
        Seq::empty()
    }) + (if c.skills is Some && c.skills->Some_0@.len() > 0 {
        seq!["skills: "@ + join_with(views(c.skills->Some_0@), ", "@)]
    } else {
        Seq::empty()
    }) + seq!["---"@, Seq::empty(), c.system_prompt@]
}

fn line(label: &str, value: &str) -> (r: String)
    ensures
        r@ == label@ + value@,
{
    let mut s = String::from_str(label);
    s.append(value);
    s
}

/// The markdown file for an agent: its front matter, a blank line, then the
/// system prompt.
pub fn generate_agent_content(config: &AgentConfig) -> (r: String)
    ensures
        r@ == join_with(agent_lines(*config), "\n"@),
{
    let mut lines: Vec<String> = Vec::new();
    lines.push(String::from_str("---"));
    if config.name.as_str().unicode_len() > 0 {
        lines.push(line("name: ", config.name.as_str()));
    }
    if config.description.as_str().unicode_len() > 0 {
        lines.push(line("description: ", config.description.as_str()));
    }
    if let Some(tools) = &config.tools {
        if tools.len() > 0 {
            lines.push(line("tools: ", join_text(tools, ", ").as_str()));
        }
    }
    if let Some(model) = &config.model {
        lines.push(line("model: ", model.as_str()));
    }
    if let Some(pm) = &config.permission_mode {
        lines.push(line("permission-mode: ", pm.as_str()));
    }
    if let Some(skills) = &config.skills {
        if skills.len() > 0 {
            lines.push(line("skills: ", join_text(skills, ", ").as_str()));
        }
    }
    lines.push(String::from_str("---"));
    lines.push(String::new());
    lines.push(config.system_prompt.clone());
    assert(views(lines@) =~= agent_lines(*config));
    join_text(&lines, "\n")
}

/// The configuration of an agent file, from the file split at its front
/// matter and, where it has a closed block, what the block reads as (`None`
/// where it is not valid YAML of that shape). A file without front matter is
/// all system prompt; one with a block that is unclosed or unreadable has no
/// configuration.
pub fn parse_agent_file(split: FrontmatterSplit, frontmatter: Option<AgentFrontmatter>) -> (r: Option<
    AgentConfig,
>)
    ensures
        match split {
            FrontmatterSplit::Plain(b) => r is Some && r->Some_0.name@.len() == 0
                && r->Some_0.description@.len() == 0 && r->Some_0.tools is None && r->Some_0.model is None
                && r->Some_0.permission_mode is None && r->Some_0.skills is None
                && r->Some_0.system_prompt@ == b@,
            FrontmatterSplit::Unclosed => r is None,
            FrontmatterSplit::Block { yaml: _, body } => match frontmatter {
                Some(fm) => r is Some && is_agent_config(r->Some_0, fm, body@),
                None => r is None,
            },
        },
{
    match split {
        FrontmatterSplit::Plain(body) => Some(plain_agent_config(body)),
        FrontmatterSplit::Unclosed => None,
        FrontmatterSplit::Block { yaml: _, body } => match frontmatter {
            Some(fm) => Some(agent_config(fm, body)),
            None => None,
        },
    }
}

} // verus!
