//! Slash commands: markdown files in a commands folder, and the built-in ones.

use vstd::prelude::*;
use vstd::string::*;
use crate::scanner::weight::clamp;
use crate::frontmatter::{content_description, extract_description_from_content};
use crate::scanner::hooks::opt_view;
use crate::text::{concat_text, strip_suffix_text, title_case, title_case_text, without_suffix};
use crate::types::{
    lemma_reordered_rows, meets_some_row, permutes_rows, row_met, sort_by_name, sorted_by_name, InventoryItem,
    ItemRarity, ItemSource, ItemType,
};
use vstd::utf8::encode_utf8;

verus! {

/// The front matter of a command file.
pub struct CommandFrontmatter {
    pub description: Option<String>,
    pub allowed_tools: Option<Vec<String>>,
}

/// Where a slash command comes from.
#[derive(Debug, Clone, Copy, PartialEq, Eq, Structural)]
pub enum CommandScope {
    /// The user's commands folder.
    User,
    /// The project's commands folder.
    Project,
    /// A plugin.
    Plugin,
}

/// The name of a command scope in item ids.
pub open spec fn command_scope_name(s: CommandScope) -> Seq<char> {
    match s {
        CommandScope::User => "user"@,
        CommandScope::Project => "project"@,
        CommandScope::Plugin => "plugin"@,
    }
}

impl CommandScope {
    /// The name of the scope in item ids.
    pub fn as_str(&self) -> (r: &'static str)
        ensures
            r@ == command_scope_name(*self),
    {
        match self {
            CommandScope::User => "user",
            CommandScope::Project => "project",
            CommandScope::Plugin => "plugin",
        }
    }
}

/// The rarity of a command: plugin commands are rare; commands allowed more
/// than three tools are epic, allowed some tools rare; otherwise user
/// commands are uncommon and project commands common.
pub open spec fn command_rarity(frontmatter: Option<CommandFrontmatter>, scope: CommandScope) -> ItemRarity {
    if scope == CommandScope::Plugin {
        ItemRarity::Rare
    } else if frontmatter is Some && frontmatter->Some_0.allowed_tools is Some
        && frontmatter->Some_0.allowed_tools->Some_0@.len() > 3 {
        ItemRarity::Epic
    } else if frontmatter is Some && frontmatter->Some_0.allowed_tools is Some
        && frontmatter->Some_0.allowed_tools->Some_0@.len() > 0 {
        ItemRarity::Rare
    } else if scope == CommandScope::User {
        ItemRarity::Uncommon
    } else {
        ItemRarity::Common
    }
}

/// Rarity of a command from its front matter and scope.
pub fn determine_command_rarity(frontmatter: &Option<CommandFrontmatter>, scope: CommandScope) -> (r:
    ItemRarity)
    ensures
        r == command_rarity(*frontmatter, scope),
{
    if scope == CommandScope::Plugin {
        return ItemRarity::Rare;
    }
    if let Some(fm) = frontmatter {
        if let Some(tools) = &fm.allowed_tools {
            if tools.len() > 3 {
                return ItemRarity::Epic;
            }
            if tools.len() > 0 {
                return ItemRarity::Rare;
            }
        }
    }
    match scope {
        CommandScope::User => ItemRarity::Uncommon,
        CommandScope::Project => ItemRarity::Common,
        CommandScope::Plugin => ItemRarity::Rare,
    }
}

/// Token weight of a command: a token for every four bytes and 500 for the
/// command itself, at most 10000.
pub open spec fn command_weight(content: Seq<char>) -> int {
    clamp((encode_utf8(content).len() / 4 + 500) as int, 500, 10000)
}

/// Token weight of a command.
pub fn estimate_command_weight(content: &str) -> (r: u32)
    ensures
        r == command_weight(content@),
{
    let tokens = content.as_bytes().len() / 4;
    if tokens > 9500 {
        10000
    } else {
        tokens as u32 + 500
    }
}

/// The built-in commands, as (name, description).
pub open spec fn builtin_table() -> Seq<(Seq<char>, Seq<char>)> {
    seq![
        ("context"@, "Show context usage visualization"@),
        ("compact"@, "Compress conversation context"@),
        ("review"@, "Review code changes"@),
        ("pr-comments"@, "Generate PR comments"@),
        ("security-review"@, "Security analysis of code"@),
        ("todo"@, "Manage task list"@),
        ("vim"@, "Toggle vim mode"@),
        ("model"@, "Switch AI model"@),
        ("resume"@, "Resume previous session"@),
        ("add"@, "Add files to context"@),
        ("hooks"@, "Manage hooks"@),
        ("mcp"@, "MCP server management"@),
        ("config"@, "Show configuration"@),
        ("init"@, "Initialize the assistant in project"@),
        ("memory"@, "Manage memory"@),
        ("help"@, "Show help"@),
        ("clear"@, "Clear conversation"@),
    ]
}

/// `item` is the inventory item of the built-in command `name`.
pub open spec fn is_builtin_item(item: InventoryItem, name: Seq<char>, description: Seq<char>) -> bool {
    &&& item.id@ == "builtin_"@ + name
    &&& item.name@ == "/"@ + name
    &&& item.description@ == description
    &&& item.item_type == ItemType::Ring
    &&& item.rarity == ItemRarity::Common
    &&& item.source == ItemSource::Command
    &&& item.source_path@.len() == 0
    &&& item.token_weight == 0
    &&& item.enabled
    &&& item.version is None
    &&& item.author is Some && item.author->Some_0@ == "Anthropic"@
    &&& item.status is None
}

fn builtin_command(name: &str, description: &str) -> (r: InventoryItem)
    ensures
        is_builtin_item(r, name@, description@),
{
    InventoryItem {
        id: concat_text("builtin_", name),
        name: concat_text("/", name),
        description: String::from_str(description),
        item_type: ItemType::Ring,
        rarity: ItemRarity::Common,
        source: ItemSource::Command,
        source_path: String::new(),
        token_weight: 0,
        enabled: true,
        version: None,
        author: Some(String::from_str("Anthropic")),
        status: None,
    }
}

/// The built-in commands, for display: they take no context.
pub fn get_builtin_commands() -> (r: Vec<InventoryItem>)
    ensures
        r@.len() == builtin_table().len(),
        forall|k: int|
            0 <= k < r@.len() ==> is_builtin_item(
                #[trigger] r@[k],
                builtin_table()[k].0,
                builtin_table()[k].1,
            ),
{
    let mut v: Vec<InventoryItem> = Vec::new();
    v.push(builtin_command("context", "Show context usage visualization"));
    v.push(builtin_command("compact", "Compress conversation context"));
    v.push(builtin_command("review", "Review code changes"));
    v.push(builtin_command("pr-comments", "Generate PR comments"));
    v.push(builtin_command("security-review", "Security analysis of code"));
    v.push(builtin_command("todo", "Manage task list"));
    v.push(builtin_command("vim", "Toggle vim mode"));
    v.push(builtin_command("model", "Switch AI model"));
    v.push(builtin_command("resume", "Resume previous session"));
    v.push(builtin_command("add", "Add files to context"));
    v.push(builtin_command("hooks", "Manage hooks"));
    v.push(builtin_command("mcp", "MCP server management"));
    v.push(builtin_command("config", "Show configuration"));
    v.push(builtin_command("init", "Initialize the assistant in project"));
    v.push(builtin_command("memory", "Manage memory"));
    v.push(builtin_command("help", "Show help"));
    v.push(builtin_command("clear", "Clear conversation"));
    v
}

/// A command file of a commands folder: a markdown file that could be read.
pub struct CommandFile {
    pub path: String,
    pub file_name: String,
    pub content: String,
    /// Its front matter, where it has one that reads as such.
    pub frontmatter: Option<CommandFrontmatter>,
}

/// The command a file defines: its name without `.md`.
pub open spec fn command_name_of(file_name: Seq<char>) -> Seq<char> {
    without_suffix(file_name, ".md"@)
}

/// The display name of a command file: its name without `.md`, in title
/// case.
pub fn format_command_name(file_name: &str) -> (r: String)
    ensures
        r@ == title_case(command_name_of(file_name@)),
{
    title_case_text(strip_suffix_text(file_name, ".md"))
}

/// The description a front matter gives, if any.
pub open spec fn frontmatter_description(fm: Option<CommandFrontmatter>) -> Option<Seq<char>> {
    match fm {
        Some(f) => opt_view(f.description),
        None => None,
    }
}

/// The description of a command: from its front matter, else its first line
/// of text cut to 100 characters, else a stock one naming the command.
pub open spec fn command_description(f: CommandFile) -> Seq<char> {
    match frontmatter_description(f.frontmatter) {
        Some(d) => d,
        None => match content_description(f.content@, 100) {
            Some(d) => d,
            None => "Slash command: /"@ + command_name_of(f.file_name@),
        },
    }
}

/// `item` is the inventory item of the command file `f` of `scope`.
pub open spec fn is_command_item(item: InventoryItem, scope: CommandScope, f: CommandFile) -> bool {
    &&& item.id@ == "cmd_"@ + command_scope_name(scope) + "_"@ + command_name_of(f.file_name@)
    &&& item.name@ == title_case(command_name_of(f.file_name@))
    &&& item.description@ == command_description(f)
    &&& item.item_type == ItemType::Ring
    &&& item.rarity == command_rarity(f.frontmatter, scope)
    &&& item.source == ItemSource::Command
    &&& item.source_path@ == f.path@
    &&& item.token_weight == command_weight(f.content@)
    &&& item.enabled
    &&& item.version is None
    &&& item.author is None
    &&& item.status is None
}

fn command_item(f: &CommandFile, scope: CommandScope) -> (r: InventoryItem)
    ensures
        is_command_item(r, scope, *f),
{
    let name = strip_suffix_text(f.file_name.as_str(), ".md");
    let description = match &f.frontmatter {
        Some(CommandFrontmatter { description: Some(d), .. }) => d.clone(),
        _ => match extract_description_from_content(f.content.as_str(), 100) {
            Some(d) => d,
            None => concat_text("Slash command: /", name),
        },
    };
    let mut id = String::from_str("cmd_");
    id.append(scope.as_str());
    id.append("_");
    id.append(name);
    InventoryItem {
        id,
        name: format_command_name(f.file_name.as_str()),
        description,
        item_type: ItemType::Ring,
        rarity: determine_command_rarity(&f.frontmatter, scope),
        source: ItemSource::Command,
        source_path: f.path.clone(),
        token_weight: estimate_command_weight(f.content.as_str()),
        enabled: true,
        version: None,
        author: None,
        status: None,
    }
}

/// The items of the command files of one folder, in the order given.
pub fn scan_commands_dir(files: &Vec<CommandFile>, scope: CommandScope) -> (r: Vec<InventoryItem>)
    ensures
        r@.len() == files@.len(),
        forall|k: int| 0 <= k < r@.len() ==> is_command_item(#[trigger] r@[k], scope, files@[k]),
{
    let mut items: Vec<InventoryItem> = Vec::new();
    let mut i: usize = 0;
    while i < files.len()
        invariant
            i <= files@.len(),
            items@.len() == i,
            forall|k: int| 0 <= k < items@.len() ==> is_command_item(#[trigger] items@[k], scope, files@[k]),
        decreases files@.len() - i,
    {
        items.push(command_item(&files[i], scope));
        i += 1;
    }
    items
}

/// The command files of the user's folder then the project's, with their
/// scopes; a folder that is absent gives none.
pub open spec fn command_rows(user: Option<&Vec<CommandFile>>, project: Option<&Vec<CommandFile>>) -> Seq<
    (CommandScope, CommandFile),
> {
    (match user {
        Some(v) => v@.map_values(|f: CommandFile| (CommandScope::User, f)),
        None => Seq::empty(),
    }) + (match project {
        Some(v) => v@.map_values(|f: CommandFile| (CommandScope::Project, f)),
        None => Seq::empty(),
    })
}

/// Whether `item` is the item of row `j` of `rows`.
pub open spec fn fits_command_row(rows: Seq<(CommandScope, CommandFile)>, item: InventoryItem, j: int) -> bool {
    0 <= j < rows.len() && is_command_item(item, rows[j].0, rows[j].1)
}

/// Whether an item is the item of a given row of the command files.
pub open spec fn command_fits(user: Option<&Vec<CommandFile>>, project: Option<&Vec<CommandFile>>) -> spec_fn(
    InventoryItem,
    int,
) -> bool {
    |it: InventoryItem, j: int| fits_command_row(command_rows(user, project), it, j)
}

/// The items of the user's and the project's command files, one for each,
/// ordered by lower-case name.
pub fn scan_slash_commands(user: Option<&Vec<CommandFile>>, project: Option<&Vec<CommandFile>>) -> (r:
    Vec<InventoryItem>)
    ensures
        r@.len() == command_rows(user, project).len(),
        sorted_by_name(r@),
        permutes_rows(r@, command_fits(user, project), command_rows(user, project).len() as int),
        forall|k: int|
            0 <= k < r@.len() ==> meets_some_row(
                #[trigger] r@[k],
                command_fits(user, project),
                command_rows(user, project).len() as int,
            ),
        forall|j: int|
            0 <= j < command_rows(user, project).len() ==> #[trigger] row_met(
                r@,
                command_fits(user, project),
                j,
            ),
{
    let ghost rows = command_rows(user, project);
    let mut all: Vec<InventoryItem> = Vec::new();
    if let Some(files) = user {
        let mut found = scan_commands_dir(files, CommandScope::User);
        all.append(&mut found);
    }
    let ghost first = all@;
    if let Some(files) = project {
        let mut found = scan_commands_dir(files, CommandScope::Project);
        all.append(&mut found);
    }
    let ghost a = all@;
    let ghost fits = command_fits(user, project);
    assert forall|k: int| 0 <= k < a.len() implies #[trigger] fits(a[k], k) by {
        if k < first.len() {
            assert(a[k] == first[k]);
        } else {
            assert(a[k] == all@[k]);
        }
    }
    let r = sort_by_name(all);
    proof {
        lemma_reordered_rows(a, r@, fits);
        a.to_multiset_ensures();
        r@.to_multiset_ensures();
        assert(a.len() == rows.len());
    }
    r
}

} // verus!
