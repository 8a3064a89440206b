//! Memory files: the instructions the assistant reads at start-up.

use vstd::prelude::*;
use vstd::string::*;
use vstd::utf8::encode_utf8;
use crate::scanner::weight::clamp;
use crate::frontmatter::{description_in, extract_description, extract_title, lines_of, title_in};
use crate::text::{push_char, trim, trimmed};
use crate::types::{InventoryItem, ItemRarity, ItemSource, ItemType};

verus! {

/// Where a memory file lives.
#[derive(Debug, Clone, Copy, PartialEq, Eq, Structural)]
pub enum ClaudeMdScope {
    /// The user's global memory file.
    UserGlobal,
    /// The memory file at the project root, shared with the team.
    ProjectRoot,
    /// The memory file in the project's configuration folder.
    ProjectClaude,
    /// The personal, git-ignored memory file of the project.
    ProjectLocal,
}

/// The name of a scope in item ids.
pub open spec fn claudemd_scope_name(s: ClaudeMdScope) -> Seq<char> {
    match s {
        ClaudeMdScope::UserGlobal => "user-global"@,
        ClaudeMdScope::ProjectRoot => "project-root"@,
        ClaudeMdScope::ProjectClaude => "project-config"@,
        ClaudeMdScope::ProjectLocal => "project-local"@,
    }
}

/// What a memory file of a scope is for.
pub open spec fn claudemd_scope_description(s: ClaudeMdScope) -> Seq<char> {
    match s {
        ClaudeMdScope::UserGlobal => "Global user memory (applies to all projects)"@,
        ClaudeMdScope::ProjectRoot => "Project memory (shared with team via git)"@,
        ClaudeMdScope::ProjectClaude => "Project memory (in the configuration folder)"@,
        ClaudeMdScope::ProjectLocal => "Local project notes (git-ignored, personal)"@,
    }
}

/// The rarity of a memory file: global memory is epic, shared project
/// memory rare, personal notes uncommon.
pub open spec fn claudemd_rarity(s: ClaudeMdScope) -> ItemRarity {
    match s {
        ClaudeMdScope::UserGlobal => ItemRarity::Epic,
        ClaudeMdScope::ProjectRoot => ItemRarity::Rare,
        ClaudeMdScope::ProjectClaude => ItemRarity::Rare,
        ClaudeMdScope::ProjectLocal => ItemRarity::Uncommon,
    }
}

impl ClaudeMdScope {
    /// The name of the scope in item ids.
    pub fn as_str(&self) -> (r: &'static str)
        ensures
            r@ == claudemd_scope_name(*self),
    {
        match self {
            ClaudeMdScope::UserGlobal => "user-global",
            ClaudeMdScope::ProjectRoot => "project-root",
            ClaudeMdScope::ProjectClaude => "project-config",
            ClaudeMdScope::ProjectLocal => "project-local",
        }
    }

    /// What a memory file of this scope is for.
    pub fn description(&self) -> (r: &'static str)
        ensures
            r@ == claudemd_scope_description(*self),
    {
        match self {
            ClaudeMdScope::UserGlobal => "Global user memory (applies to all projects)",
            ClaudeMdScope::ProjectRoot => "Project memory (shared with team via git)",
            ClaudeMdScope::ProjectClaude => "Project memory (in the configuration folder)",
            ClaudeMdScope::ProjectLocal => "Local project notes (git-ignored, personal)",
        }
    }

    /// The rarity of a memory file of this scope.
    pub fn rarity(&self) -> (r: ItemRarity)
        ensures
            r == claudemd_rarity(*self),
    {
        match self {
            ClaudeMdScope::UserGlobal => ItemRarity::Epic,
            ClaudeMdScope::ProjectRoot => ItemRarity::Rare,
            ClaudeMdScope::ProjectClaude => ItemRarity::Rare,
            ClaudeMdScope::ProjectLocal => ItemRarity::Uncommon,
        }
    }
}

/// Token weight of a memory file: a token for every four bytes, between
/// 500 and 50000.
pub fn estimate_claudemd_weight(content: &str) -> (r: u32)
    ensures
        r == clamp((encode_utf8(content@).len() / 4) as int, 500, 50000),
{
    let tokens = content.as_bytes().len() / 4;
    if tokens < 500 {
        500
    } else if tokens > 50000 {
        50000
    } else {
        tokens as u32
    }
}

/// A memory file that exists, with its path and content.
#[derive(Debug, Clone)]
pub struct MemoryFile {
    pub path: String,
    pub content: String,
}

/// The name a memory file of a scope gets when it has no heading.
pub open spec fn default_memory_name(s: ClaudeMdScope) -> Seq<char> {
    match s {
        ClaudeMdScope::UserGlobal => "Global Memory"@,
        ClaudeMdScope::ProjectRoot => "Project Memory"@,
        ClaudeMdScope::ProjectClaude => "Project Memory"@,
        ClaudeMdScope::ProjectLocal => "Local Notes"@,
    }
}

/// A path character as it stands in an id: separators, dots and spaces
/// become underscores.
pub open spec fn id_char(c: char) -> char {
    if c == '/' || c == '\\' || c == '.' || c == ' ' {
        '_'
    } else {
        c
    }
}

/// A path as it stands in an id: each character mapped, at most 50 of them.
pub open spec fn path_key(path: Seq<char>) -> Seq<char> {
    let m = path.map_values(|c: char| id_char(c));
    if m.len() > 50 {
        m.take(50)
    } else {
        m
    }
}

fn path_key_exec(path: &str) -> (r: String)
    ensures
        r@ == path_key(path@),
{
    let n = path.unicode_len();
    let limit: usize = if n > 50 { 50 } else { n };
    let mut out = String::new();
    let mut i: usize = 0;
    while i < limit
        invariant
            n == path@.len(),
            limit <= n,
            limit == if n > 50 { 50 } else { n },
            i <= limit,
            out@ == path@.map_values(|c: char| id_char(c)).take(i as int),
        decreases limit - i,
    {
        let c = path.get_char(i);
        let d = if c == '/' || c == '\\' || c == '.' || c == ' ' { '_' } else { c };
        push_char(&mut out, d);
        assert(path@.map_values(|c: char| id_char(c)).take(i + 1) =~= path@.map_values(
            |c: char| id_char(c),
        ).take(i as int).push(d));
        i += 1;
    }
    assert(path@.map_values(|c: char| id_char(c)).take(limit as int) =~= path_key(path@));
    out
}

/// `item` is the inventory item of the memory file `file` of `scope`.
pub open spec fn is_memory_item(item: InventoryItem, scope: ClaudeMdScope, file: MemoryFile) -> bool {
    let c = file.content@;
    &&& item.id@ == "claudemd_"@ + claudemd_scope_name(scope) + "_"@ + path_key(file.path@)
    &&& item.name@ == match title_in(lines_of(c)) {
        Some(t) => t,
        None => default_memory_name(scope),
    }
    &&& item.description@ == claudemd_scope_description(scope) + " - "@ + match description_in(
        lines_of(c),
        false,
        150,
    ) {
        Some(d) => d,
        None => "Assistant memory and instructions"@,
    }
    &&& item.item_type == ItemType::Helm
    &&& item.rarity == claudemd_rarity(scope)
    &&& item.source == ItemSource::ClaudeMd
    &&& item.source_path@ == file.path@
    &&& item.token_weight == clamp((encode_utf8(c).len() / 4) as int, 500, 50000)
    &&& item.enabled
    &&& item.version is None
    &&& item.author is None
    &&& item.status is None
}

/// The item of a memory file; none when the file is blank.
pub fn scan_claudemd_file(file: &MemoryFile, scope: ClaudeMdScope) -> (r: Option<InventoryItem>)
    ensures
        trimmed(file.content@).len() == 0 ==> r is None,
        trimmed(file.content@).len() > 0 ==> r is Some && is_memory_item(r->Some_0, scope, *file),
{
    let content = file.content.as_str();
    if trim(content).unicode_len() == 0 {
        return None;
    }
    let name = match extract_title(content) {
        Some(t) => t,
        None => String::from_str(
            match scope {
                ClaudeMdScope::UserGlobal => "Global Memory",
                ClaudeMdScope::ProjectRoot => "Project Memory",
                ClaudeMdScope::ProjectClaude => "Project Memory",
                ClaudeMdScope::ProjectLocal => "Local Notes",
            },
        ),
    };
    let mut description = String::from_str(scope.description());
    description.append(" - ");
    description.append(extract_description(content).as_str());
    let mut id = String::from_str("claudemd_");
    id.append(scope.as_str());
    id.append("_");
    id.append(path_key_exec(file.path.as_str()).as_str());
    Some(
        InventoryItem {
            id,
            name,
            description,
            item_type: ItemType::Helm,
            rarity: scope.rarity(),
            source: ItemSource::ClaudeMd,
            source_path: file.path.clone(),
            token_weight: estimate_claudemd_weight(content),
            enabled: true,
            version: None,
            author: None,
            status: None,
        },
    )
}

/// The items of the memory files, global first, then the project's root,
/// configuration-folder and local files; files that are absent (`None`) or
/// blank give none. This is also their order of rarity.
pub fn scan_claudemd(
    user: Option<&MemoryFile>,
    root: Option<&MemoryFile>,
    folder: Option<&MemoryFile>,
    local: Option<&MemoryFile>,
) -> (r: Vec<InventoryItem>)
    ensures
        r@.len() == memory_count(user) + memory_count(root) + memory_count(folder) + memory_count(
            local,
        ),
        forall|k: int|
            0 <= k < r@.len() ==> {
                let (scope, file) = memory_rows(user, root, folder, local)[k];
                is_memory_item(#[trigger] r@[k], scope, file)
            },
{
    let mut items: Vec<InventoryItem> = Vec::new();
    let ghost mut rows: Seq<(ClaudeMdScope, MemoryFile)> = Seq::empty();
    let sources = [
        (ClaudeMdScope::UserGlobal, user),
        (ClaudeMdScope::ProjectRoot, root),
        (ClaudeMdScope::ProjectClaude, folder),
        (ClaudeMdScope::ProjectLocal, local),
    ];
    assert(memory_rows(user, root, folder, local) =~= memory_row(ClaudeMdScope::UserGlobal, user)
        + memory_row(ClaudeMdScope::ProjectRoot, root) + memory_row(ClaudeMdScope::ProjectClaude, folder)
        + memory_row(ClaudeMdScope::ProjectLocal, local));
    let mut i: usize = 0;
    while i < 4
        invariant
            i <= 4,
            sources@ == seq![
                (ClaudeMdScope::UserGlobal, user),
                (ClaudeMdScope::ProjectRoot, root),
                (ClaudeMdScope::ProjectClaude, folder),
                (ClaudeMdScope::ProjectLocal, local),
            ],
            rows == rows_upto(sources@, i as int),
            items@.len() == rows.len(),
            forall|k: int| 0 <= k < items@.len() ==> is_memory_item(#[trigger] items@[k], rows[k].0, rows[k].1),
        decreases 4 - i,
    {
        let (scope, file) = sources[i];
        let ghost before = rows;
        if let Some(f) = file {
            if let Some(item) = scan_claudemd_file(f, scope) {
                items.push(item);
                proof {
                    rows = rows.push((scope, *f));
                }
            }
        }
        assert(rows_upto(sources@, i + 1) == before + memory_row(scope, file));
        assert(rows =~= before + memory_row(scope, file));
        i += 1;
    }
    proof {
        reveal_with_fuel(rows_upto, 5);
        assert(sources@[0] == (ClaudeMdScope::UserGlobal, user));
        assert(sources@[1] == (ClaudeMdScope::ProjectRoot, root));
        assert(sources@[2] == (ClaudeMdScope::ProjectClaude, folder));
        assert(sources@[3] == (ClaudeMdScope::ProjectLocal, local));
    }
    assert(rows_upto(sources@, 4) =~= memory_rows(user, root, folder, local));
    items
}

/// How many items a memory file gives: one unless absent or blank.
pub open spec fn memory_count(file: Option<&MemoryFile>) -> nat {
    memory_row(ClaudeMdScope::UserGlobal, file).len()
}

/// The file of a scope, as a row, when it gives an item.
pub open spec fn memory_row(scope: ClaudeMdScope, file: Option<&MemoryFile>) -> Seq<(ClaudeMdScope, MemoryFile)> {
    match file {
        Some(f) => if trimmed(f.content@).len() > 0 {
            seq![(scope, *f)]
        } else {
            Seq::empty()
        },
        None => Seq::empty(),
    }
}

/// The files that give items, with their scopes, in scan order.
pub open spec fn memory_rows(
    user: Option<&MemoryFile>,
    root: Option<&MemoryFile>,
    folder: Option<&MemoryFile>,
    local: Option<&MemoryFile>,
) -> Seq<(ClaudeMdScope, MemoryFile)> {
    memory_row(ClaudeMdScope::UserGlobal, user) + memory_row(ClaudeMdScope::ProjectRoot, root)
        + memory_row(ClaudeMdScope::ProjectClaude, folder) + memory_row(ClaudeMdScope::ProjectLocal, local)
}

/// The rows of the first `i` sources.
pub open spec fn rows_upto(sources: Seq<(ClaudeMdScope, Option<&MemoryFile>)>, i: int) -> Seq<
    (ClaudeMdScope, MemoryFile),
>
    decreases i,
{
    if i <= 0 {
        Seq::empty()
    } else {
        rows_upto(sources, i - 1) + memory_row(sources[i - 1].0, sources[i - 1].1)
    }
}

} // verus!
