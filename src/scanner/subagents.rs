//! Subagents: markdown files in an agents folder.

use vstd::prelude::*;
use crate::frontmatter::{content_description, extract_description_from_content};
use crate::scanner::weight::clamp;
use crate::text::{concat_text, same_text, strip_suffixes_text, title_case, title_case_text, without_suffixes};
use crate::types::{
    lemma_reordered_rows, meets_some_row, permutes_rows, row_met, sort_by_name, sorted_by_name, InventoryItem,
    ItemRarity, ItemSource, ItemType,
};
use vstd::utf8::encode_utf8;

verus! {

/// The front matter of an agent file.
pub struct SubagentFrontmatter {
    pub name: Option<String>,
    pub description: Option<String>,
    pub tools: Option<Vec<String>>,
    pub model: Option<String>,
    pub permission_mode: Option<String>,
    pub skills: Option<Vec<String>>,
}

/// Where a subagent lives.
#[derive(Debug, Clone, Copy, PartialEq, Eq, Structural)]
pub enum SubagentScope {
    /// The user's agents folder.
    User,
    /// The project's agents folder.
    Project,
}

/// The name of a subagent scope in item ids.
pub open spec fn subagent_scope_name(s: SubagentScope) -> Seq<char> {
    match s {
        SubagentScope::User => "user"@,
        SubagentScope::Project => "project"@,
    }
}

impl SubagentScope {
    /// The name of the scope in item ids.
    pub fn as_str(&self) -> (r: &'static str)
        ensures
            r@ == subagent_scope_name(*self),
    {
        match self {
            SubagentScope::User => "user",
            SubagentScope::Project => "project",
        }
    }
}

/// Subagents known to be legendary.
pub open spec fn legendary_agents() -> Seq<Seq<char>> {
    seq!["architect"@, "security-auditor"@]
}

/// Subagents known to be epic.
pub open spec fn epic_agents() -> Seq<Seq<char>> {
    seq!["test-runner"@, "documentation-writer"@, "refactor-assistant"@]
}

/// How many entries an optional list has.
pub open spec fn count_of(list: Option<Vec<String>>) -> nat {
    match list {
        Some(v) => v@.len(),
        None => 0,
    }
}

/// The rarity of a subagent: known agents by name; then an agent with more
/// than eight tools and skills together is epic, more than four rare, and
/// one with a model of its own rare; otherwise user agents are uncommon and
/// project agents common.
pub open spec fn subagent_rarity(frontmatter: Option<SubagentFrontmatter>, scope: SubagentScope, agent_id: Seq<char>) -> ItemRarity {
    if legendary_agents().contains(agent_id) {
        ItemRarity::Legendary
    } else if epic_agents().contains(agent_id) {
        ItemRarity::Epic
    } else if frontmatter is Some && count_of(frontmatter->Some_0.tools) + count_of(
        frontmatter->Some_0.skills,
    ) > 8 {
        ItemRarity::Epic
    } else if frontmatter is Some && count_of(frontmatter->Some_0.tools) + count_of(
        frontmatter->Some_0.skills,
    ) > 4 {
        ItemRarity::Rare
    } else if frontmatter is Some && frontmatter->Some_0.model is Some {
        ItemRarity::Rare
    } else if scope == SubagentScope::User {
        ItemRarity::Uncommon
    } else {
        ItemRarity::Common
    }
}

fn list_len(list: &Option<Vec<String>>) -> (r: usize)
    ensures
        r == count_of(*list),
{
    match list {
        Some(v) => v.len(),
        None => 0,
    }
}

/// Rarity of a subagent from its front matter, scope and file name.
pub fn determine_subagent_rarity(
    frontmatter: &Option<SubagentFrontmatter>,
    scope: SubagentScope,
    agent_id: &str,
) -> (r: ItemRarity)
    ensures
        r == subagent_rarity(*frontmatter, scope, agent_id@),
{
    proof {
        assert(legendary_agents()[0] == "architect"@);
        assert(legendary_agents()[1] == "security-auditor"@);
        assert(epic_agents()[0] == "test-runner"@);
        assert(epic_agents()[1] == "documentation-writer"@);
        assert(epic_agents()[2] == "refactor-assistant"@);
    }
    if same_text(agent_id, "architect") || same_text(agent_id, "security-auditor") {
        return ItemRarity::Legendary;
    }
    if same_text(agent_id, "test-runner") || same_text(agent_id, "documentation-writer") || same_text(
        agent_id,
        "refactor-assistant",
    ) {
        return ItemRarity::Epic;
    }
    if let Some(fm) = frontmatter {
        let tool_count = list_len(&fm.tools);
        let skill_count = list_len(&fm.skills);
        if tool_count > 8 || skill_count > 8 || tool_count + skill_count > 8 {
            return ItemRarity::Epic;
        }
        if tool_count + skill_count > 4 {
            return ItemRarity::Rare;
        }
        if fm.model.is_some() {
            return ItemRarity::Rare;
        }
    }
    match scope {
        SubagentScope::User => ItemRarity::Uncommon,
        SubagentScope::Project => ItemRarity::Common,
    }
}

/// Token weight of a subagent, which runs in a context of its own: a tenth
/// of its file's bytes, between 100 and 500; 200 when the file could not
/// be read.
pub open spec fn subagent_weight(content: Option<Seq<char>>) -> int {
    match content {
        Some(c) => clamp((encode_utf8(c).len() / 10) as int, 100, 500),
        None => 200,
    }
}

/// Token weight of a subagent from its file's text, where it could be read.
pub fn estimate_subagent_weight(content: &Option<String>) -> (r: u32)
    ensures
        r == subagent_weight(
            match *content {
                Some(c) => Some(c@),
                None => None,
            },
        ),
{
    match content {
        Some(c) => {
            let tenth = c.as_str().as_bytes().len() / 10;
            if tenth < 100 {
                100
            } else if tenth > 500 {
                500
            } else {
                tenth as u32
            }
        },
        None => 200,
    }
}

/// The agent a file defines: its name without any `.md` ending.
pub open spec fn agent_id_of(file_name: Seq<char>) -> Seq<char> {
    without_suffixes(file_name, ".md"@)
}

/// The display name of an agent file: its name without `.md`, in title case.
pub fn format_agent_name(file_name: &str) -> (r: String)
    ensures
        r@ == title_case(agent_id_of(file_name@)),
{
    title_case_text(strip_suffixes_text(file_name, ".md"))
}

/// An agent file of an agents folder.
pub struct AgentFile {
    pub path: String,
    pub file_name: String,
    /// Its text, where it could be read.
    pub content: Option<String>,
    /// Its front matter, where it reads as such.
    pub frontmatter: Option<SubagentFrontmatter>,
}

/// The text of an agent file, empty where it could not be read.
pub open spec fn agent_text(f: AgentFile) -> Seq<char> {
    match f.content {
        Some(c) => c@,
        None => Seq::empty(),
    }
}

/// The display name of a subagent: from its front matter, else its file
/// name in title case.
pub open spec fn agent_name(f: AgentFile) -> Seq<char> {
    match f.frontmatter {
        Some(fm) if fm.name is Some => fm.name->Some_0@,
        _ => title_case(agent_id_of(f.file_name@)),
    }
}

/// The description of a subagent: from its front matter, else its first
/// line of text cut to 150 characters, else a stock one naming it.
pub open spec fn agent_description(f: AgentFile) -> Seq<char> {
    match f.frontmatter {
        Some(fm) if fm.description is Some => fm.description->Some_0@,
        _ => match content_description(agent_text(f), 150) {
            Some(t) => t,
            None => "Subagent: "@ + agent_name(f) + " (isolated context)"@,
        },
    }
}

/// `item` is the inventory item of the agent file `f` of `scope`.
pub open spec fn is_agent_item(item: InventoryItem, scope: SubagentScope, f: AgentFile) -> bool {
    &&& item.id@ == "subagent_"@ + subagent_scope_name(scope) + "_"@ + agent_id_of(f.file_name@)
    &&& item.name@ == agent_name(f)
    &&& item.description@ == agent_description(f)
    &&& item.item_type == ItemType::Companion
    &&& item.rarity == subagent_rarity(f.frontmatter, scope, agent_id_of(f.file_name@))
    &&& item.source == ItemSource::Subagent
    &&& item.source_path@ == f.path@
    &&& item.token_weight == subagent_weight(
        match f.content {
            Some(c) => Some(c@),
            None => None,
        },
    )
    &&& item.enabled
    &&& item.version is None
    &&& item.author is None
    &&& item.status is None
}

fn agent_item(f: &AgentFile, scope: SubagentScope) -> (r: InventoryItem)
    ensures
        is_agent_item(r, scope, *f),
{
    let agent_id = strip_suffixes_text(f.file_name.as_str(), ".md");
    let name = match &f.frontmatter {
        Some(SubagentFrontmatter { name: Some(n), .. }) => n.clone(),
        _ => format_agent_name(f.file_name.as_str()),
    };
    let text = match &f.content {
        Some(c) => c.as_str(),
        None => "",
    };
    proof {
        reveal_strlit("");
    }
    let description = match &f.frontmatter {
        Some(SubagentFrontmatter { description: Some(t), .. }) => t.clone(),
        _ => match extract_description_from_content(text, 150) {
            Some(t) => t,
            None => {
                let mut d = concat_text("Subagent: ", name.as_str());
                d.append(" (isolated context)");
                d
            },
        },
    };
    let mut id = String::from_str("subagent_");
    id.append(scope.as_str());
    id.append("_");
    id.append(agent_id);
    InventoryItem {
        id,
        name,
        description,
        item_type: ItemType::Companion,
        rarity: determine_subagent_rarity(&f.frontmatter, scope, agent_id),
        source: ItemSource::Subagent,
        source_path: f.path.clone(),
        token_weight: estimate_subagent_weight(&f.content),
        enabled: true,
        version: None,
        author: None,
        status: None,
    }
}

/// The items of the agent files of one folder, in the order given.
pub fn scan_agents_dir(files: &Vec<AgentFile>, scope: SubagentScope) -> (r: Vec<InventoryItem>)
    ensures
        r@.len() == files@.len(),
        forall|k: int| 0 <= k < r@.len() ==> is_agent_item(#[trigger] r@[k], scope, files@[k]),
{
    let mut items: Vec<InventoryItem> = Vec::new();
    let mut i: usize = 0;
    while i < files.len()
        invariant
            i <= files@.len(),
            items@.len() == i,
            forall|k: int| 0 <= k < items@.len() ==> is_agent_item(#[trigger] items@[k], scope, files@[k]),
        decreases files@.len() - i,
    {
        items.push(agent_item(&files[i], scope));
        i += 1;
    }
    items
}

/// The agent files of the user then the project, with their scopes.
pub open spec fn agent_rows(user: Option<&Vec<AgentFile>>, project: Option<&Vec<AgentFile>>) -> Seq<
    (SubagentScope, AgentFile),
> {
    (match user {
        Some(v) => v@.map_values(|f: AgentFile| (SubagentScope::User, f)),
        None => Seq::empty(),
    }) + (match project {
        Some(v) => v@.map_values(|f: AgentFile| (SubagentScope::Project, f)),
        None => Seq::empty(),
    })
}

/// Whether an item is the item of a given row of the agent files.
pub open spec fn agent_fits(user: Option<&Vec<AgentFile>>, project: Option<&Vec<AgentFile>>) -> spec_fn(
    InventoryItem,
    int,
) -> bool {
    |it: InventoryItem, j: int|
        0 <= j < agent_rows(user, project).len() && is_agent_item(
            it,
            agent_rows(user, project)[j].0,
            agent_rows(user, project)[j].1,
        )
}

/// The items of the user's and the project's subagents, one for each file,
/// ordered by lower-case name.
pub fn scan_subagents(user: Option<&Vec<AgentFile>>, project: Option<&Vec<AgentFile>>) -> (r: Vec<
    InventoryItem,
>)
    ensures
        r@.len() == agent_rows(user, project).len(),
        sorted_by_name(r@),
        permutes_rows(r@, agent_fits(user, project), agent_rows(user, project).len() as int),
        forall|k: int|
            0 <= k < r@.len() ==> meets_some_row(
                #[trigger] r@[k],
                agent_fits(user, project),
                agent_rows(user, project).len() as int,
            ),
        forall|j: int|
            0 <= j < agent_rows(user, project).len() ==> #[trigger] row_met(r@, agent_fits(user, project), j),
{
    let ghost rows = agent_rows(user, project);
    let mut all: Vec<InventoryItem> = Vec::new();
    if let Some(files) = user {
        let mut found = scan_agents_dir(files, SubagentScope::User);
        all.append(&mut found);
    }
    let ghost first = all@;
    if let Some(files) = project {
        let mut found = scan_agents_dir(files, SubagentScope::Project);
        all.append(&mut found);
    }
    let ghost a = all@;
    let ghost fits = agent_fits(user, project);
    assert forall|k: int| 0 <= k < a.len() implies #[trigger] fits(a[k], k) by {
        if k < first.len() {
            assert(a[k] == first[k]);
        }
    }
    let r = sort_by_name(all);
    proof {
        lemma_reordered_rows(a, r@, fits);
        a.to_multiset_ensures();
        r@.to_multiset_ensures();
        assert(a.len() == rows.len());
    }
    r
}

} // verus!
