//! Skills: folders holding a `SKILL.md`.

use vstd::prelude::*;
use crate::frontmatter::{content_description, extract_description_from_content};
use crate::scanner::weight::clamp;
use crate::text::{concat_text, same_text, title_case, title_case_text};
use crate::types::{
    lemma_reordered_rows, meets_some_row, permutes_rows, row_met, sort_by_name, sorted_by_name, InventoryItem,
    ItemRarity, ItemSource, ItemType,
};

verus! {

/// The front matter of a `SKILL.md`.
pub struct SkillFrontmatter {
    pub name: Option<String>,
    pub description: Option<String>,
    pub allowed_tools: Option<Vec<String>>,
}

/// Where a skill lives.
#[derive(Debug, Clone, Copy, PartialEq, Eq, Structural)]
pub enum SkillScope {
    /// The user's skills folder.
    User,
    /// The project's skills folder.
    Project,
}

/// The name of a skill scope in item ids.
pub open spec fn skill_scope_name(s: SkillScope) -> Seq<char> {
    match s {
        SkillScope::User => "user"@,
        SkillScope::Project => "project"@,
    }
}

impl SkillScope {
    /// The name of the scope in item ids.
    pub fn as_str(&self) -> (r: &'static str)
        ensures
            r@ == skill_scope_name(*self),
    {
        match self {
            SkillScope::User => "user",
            SkillScope::Project => "project",
        }
    }
}

/// Skills known to be legendary.
pub open spec fn legendary_skills() -> Seq<Seq<char>> {
    seq!["skill-creator"@, "mcp-builder"@, "web-artifacts-builder"@]
}

/// Skills known to be epic.
pub open spec fn epic_skills() -> Seq<Seq<char>> {
    seq!["algorithmic-art"@, "webapp-testing"@, "frontend-design"@]
}

/// The rarity of a skill: known skills by name; then a skill allowed more
/// than five tools is epic, more than two rare; otherwise user skills are
/// uncommon and project skills common.
pub open spec fn skill_rarity(frontmatter: Option<SkillFrontmatter>, scope: SkillScope, skill_id: Seq<char>) -> ItemRarity {
    if legendary_skills().contains(skill_id) {
        ItemRarity::Legendary
    } else if epic_skills().contains(skill_id) {
        ItemRarity::Epic
    } else if frontmatter is Some && frontmatter->Some_0.allowed_tools is Some
        && frontmatter->Some_0.allowed_tools->Some_0@.len() > 5 {
        ItemRarity::Epic
    } else if frontmatter is Some && frontmatter->Some_0.allowed_tools is Some
        && frontmatter->Some_0.allowed_tools->Some_0@.len() > 2 {
        ItemRarity::Rare
    } else if scope == SkillScope::User {
        ItemRarity::Uncommon
    } else {
        ItemRarity::Common
    }
}

/// Rarity of a skill from its front matter, scope and folder name.
pub fn determine_skill_rarity(frontmatter: &Option<SkillFrontmatter>, scope: SkillScope, skill_id: &str) -> (r:
    ItemRarity)
    ensures
        r == skill_rarity(*frontmatter, scope, skill_id@),
{
    proof {
        assert(legendary_skills()[0] == "skill-creator"@);
        assert(legendary_skills()[1] == "mcp-builder"@);
        assert(legendary_skills()[2] == "web-artifacts-builder"@);
        assert(epic_skills()[0] == "algorithmic-art"@);
        assert(epic_skills()[1] == "webapp-testing"@);
        assert(epic_skills()[2] == "frontend-design"@);
    }
    if same_text(skill_id, "skill-creator") || same_text(skill_id, "mcp-builder") || same_text(
        skill_id,
        "web-artifacts-builder",
    ) {
        return ItemRarity::Legendary;
    }
    if same_text(skill_id, "algorithmic-art") || same_text(skill_id, "webapp-testing") || same_text(
        skill_id,
        "frontend-design",
    ) {
        return ItemRarity::Epic;
    }
    if let Some(fm) = frontmatter {
        if let Some(tools) = &fm.allowed_tools {
            if tools.len() > 5 {
                return ItemRarity::Epic;
            }
            if tools.len() > 2 {
                return ItemRarity::Rare;
            }
        }
    }
    match scope {
        SkillScope::User => ItemRarity::Uncommon,
        SkillScope::Project => ItemRarity::Common,
    }
}

/// The file names a skill's description may have, in order of preference.
pub open spec fn skill_md_names() -> Seq<Seq<char>> {
    seq!["SKILL.md"@, "skill.md"@, "Skill.md"@]
}

/// The first of the skill file names that exists in a skill folder, given
/// which of them exist.
pub fn find_skill_md(exists: [bool; 3]) -> (r: Option<&'static str>)
    ensures
        exists[0] ==> r is Some && r->Some_0@ == skill_md_names()[0],
        !exists[0] && exists[1] ==> r is Some && r->Some_0@ == skill_md_names()[1],
        !exists[0] && !exists[1] && exists[2] ==> r is Some && r->Some_0@ == skill_md_names()[2],
        !exists[0] && !exists[1] && !exists[2] ==> r is None,
{
    let candidates = ["SKILL.md", "skill.md", "Skill.md"];
    let mut i: usize = 0;
    while i < 3
        invariant
            i <= 3,
            candidates@ == seq!["SKILL.md", "skill.md", "Skill.md"],
            forall|j: int| 0 <= j < i ==> !exists[j],
        decreases 3 - i,
    {
        if exists[i] {
            return Some(candidates[i]);
        }
        i += 1;
    }
    None
}

/// Token weight of a skill from the characters of its markdown files: a
/// token for every four and 1500 for the skill itself, between 1000 and
/// 25000.
pub open spec fn skill_weight(total_chars: nat) -> int {
    clamp((total_chars / 4 + 1500) as int, 1000, 25000)
}

/// Token weight of a skill from the characters of its markdown files.
pub fn estimate_skill_weight(total_chars: u64) -> (r: u32)
    ensures
        r == skill_weight(total_chars as nat),
{
    let tokens = total_chars / 4;
    if tokens > 23500 {
        25000
    } else {
        tokens as u32 + 1500
    }
}

/// A skill folder, with what could be read of it.
pub struct SkillDir {
    pub path: String,
    /// The folder's name.
    pub skill_id: String,
    /// The text of its skill file; empty where it has none or it could not
    /// be read.
    pub content: String,
    /// The skill file's front matter, where it reads as such.
    pub frontmatter: Option<SkillFrontmatter>,
    /// How many characters its markdown files hold together.
    pub md_chars: u64,
}

/// The display name of a skill: from its front matter, else its folder
/// name in title case.
pub open spec fn skill_name(d: SkillDir) -> Seq<char> {
    match d.frontmatter {
        Some(fm) if fm.name is Some => fm.name->Some_0@,
        _ => title_case(d.skill_id@),
    }
}

/// The description of a skill: from its front matter, else its first line
/// of text cut to 150 characters, else a stock one naming the skill.
pub open spec fn skill_description(d: SkillDir) -> Seq<char> {
    match d.frontmatter {
        Some(fm) if fm.description is Some => fm.description->Some_0@,
        _ => match content_description(d.content@, 150) {
            Some(t) => t,
            None => "AI skill: "@ + skill_name(d),
        },
    }
}

/// `item` is the inventory item of the skill folder `d` of `scope`.
pub open spec fn is_skill_item(item: InventoryItem, scope: SkillScope, d: SkillDir) -> bool {
    &&& item.id@ == "skill_"@ + skill_scope_name(scope) + "_"@ + d.skill_id@
    &&& item.name@ == skill_name(d)
    &&& item.description@ == skill_description(d)
    &&& item.item_type == ItemType::Spell
    &&& item.rarity == skill_rarity(d.frontmatter, scope, d.skill_id@)
    &&& item.source == ItemSource::Skill
    &&& item.source_path@ == d.path@
    &&& item.token_weight == skill_weight(d.md_chars as nat)
    &&& item.enabled
    &&& item.version is None
    &&& item.author is None
    &&& item.status is None
}

fn skill_item(d: &SkillDir, scope: SkillScope) -> (r: InventoryItem)
    ensures
        is_skill_item(r, scope, *d),
{
    let name = match &d.frontmatter {
        Some(SkillFrontmatter { name: Some(n), .. }) => n.clone(),
        _ => title_case_text(d.skill_id.as_str()),
    };
    let description = match &d.frontmatter {
        Some(SkillFrontmatter { description: Some(t), .. }) => t.clone(),
        _ => match extract_description_from_content(d.content.as_str(), 150) {
            Some(t) => t,
            None => concat_text("AI skill: ", name.as_str()),
        },
    };
    let mut id = String::from_str("skill_");
    id.append(scope.as_str());
    id.append("_");
    id.append(d.skill_id.as_str());
    InventoryItem {
        id,
        name,
        description,
        item_type: ItemType::Spell,
        rarity: determine_skill_rarity(&d.frontmatter, scope, d.skill_id.as_str()),
        source: ItemSource::Skill,
        source_path: d.path.clone(),
        token_weight: estimate_skill_weight(d.md_chars),
        enabled: true,
        version: None,
        author: None,
        status: None,
    }
}

/// The items of the skill folders of one skills folder, in the order given.
pub fn scan_skills_dir(dirs: &Vec<SkillDir>, scope: SkillScope) -> (r: Vec<InventoryItem>)
    ensures
        r@.len() == dirs@.len(),
        forall|k: int| 0 <= k < r@.len() ==> is_skill_item(#[trigger] r@[k], scope, dirs@[k]),
{
    let mut items: Vec<InventoryItem> = Vec::new();
    let mut i: usize = 0;
    while i < dirs.len()
        invariant
            i <= dirs@.len(),
            items@.len() == i,
            forall|k: int| 0 <= k < items@.len() ==> is_skill_item(#[trigger] items@[k], scope, dirs@[k]),
        decreases dirs@.len() - i,
    {
        items.push(skill_item(&dirs[i], scope));
        i += 1;
    }
    items
}

/// The skill folders of the user then the project, with their scopes.
pub open spec fn skill_rows(user: Option<&Vec<SkillDir>>, project: Option<&Vec<SkillDir>>) -> Seq<
    (SkillScope, SkillDir),
> {
    (match user {
        Some(v) => v@.map_values(|d: SkillDir| (SkillScope::User, d)),
        None => Seq::empty(),
    }) + (match project {
        Some(v) => v@.map_values(|d: SkillDir| (SkillScope::Project, d)),
        None => Seq::empty(),
    })
}

/// Whether an item is the item of a given row of the skill folders.
pub open spec fn skill_fits(user: Option<&Vec<SkillDir>>, project: Option<&Vec<SkillDir>>) -> spec_fn(
    InventoryItem,
    int,
) -> bool {
    |it: InventoryItem, j: int|
        0 <= j < skill_rows(user, project).len() && is_skill_item(
            it,
            skill_rows(user, project)[j].0,
            skill_rows(user, project)[j].1,
        )
}

/// The items of the user's and the project's skills, one for each folder,
/// ordered by lower-case name.
pub fn scan_skills(user: Option<&Vec<SkillDir>>, project: Option<&Vec<SkillDir>>) -> (r: Vec<InventoryItem>)
    ensures
        r@.len() == skill_rows(user, project).len(),
        sorted_by_name(r@),
        permutes_rows(r@, skill_fits(user, project), skill_rows(user, project).len() as int),
        forall|k: int|
            0 <= k < r@.len() ==> meets_some_row(
                #[trigger] r@[k],
                skill_fits(user, project),
                skill_rows(user, project).len() as int,
            ),
        forall|j: int|
            0 <= j < skill_rows(user, project).len() ==> #[trigger] row_met(r@, skill_fits(user, project), j),
{
    let ghost rows = skill_rows(user, project);
    let mut all: Vec<InventoryItem> = Vec::new();
    if let Some(dirs) = user {
        let mut found = scan_skills_dir(dirs, SkillScope::User);
        all.append(&mut found);
    }
    let ghost first = all@;
    if let Some(dirs) = project {
        let mut found = scan_skills_dir(dirs, SkillScope::Project);
        all.append(&mut found);
    }
    let ghost a = all@;
    let ghost fits = skill_fits(user, project);
    assert forall|k: int| 0 <= k < a.len() implies #[trigger] fits(a[k], k) by {
        if k < first.len() {
            assert(a[k] == first[k]);
        }
    }
    let r = sort_by_name(all);
    proof {
        lemma_reordered_rows(a, r@, fits);
        a.to_multiset_ensures();
        r@.to_multiset_ensures();
        assert(a.len() == rows.len());
    }
    r
}

} // verus!
