//! Plugins, installed or offered by a marketplace.

use vstd::prelude::*;
use crate::scanner::settings::ClaudeSettings;
use crate::scanner::weight::clamp;
use crate::text::{
    concat_text, contains_text, has_infix, lemma_pieces_nonempty, lowercase, lowercase_of, pieces, same_text,
    split_text, views,
};
use crate::types::{
    lemma_reordered_rows, meets_some_row, permutes_rows, row_met, sort_by_name, sorted_by_name, InventoryItem,
    ItemRarity, ItemSource, ItemType,
};

verus! {

/// The author of a plugin, written as an object or as a bare name.
pub enum AuthorInfo {
    Object { name: String },
    Text(String),
}

/// The name of an author.
pub open spec fn author_name(a: AuthorInfo) -> Seq<char> {
    match a {
        AuthorInfo::Object { name } => name@,
        AuthorInfo::Text(s) => s@,
    }
}

impl AuthorInfo {
    /// The author's name.
    pub fn name(&self) -> (r: &str)
        ensures
            r@ == author_name(*self),
    {
        match self {
            AuthorInfo::Object { name } => name.as_str(),
            AuthorInfo::Text(s) => s.as_str(),
        }
    }
}

/// What a marketplace catalog says of a plugin.
pub struct PluginMetadata {
    pub name: String,
    pub description: String,
    pub version: Option<String>,
    pub category: Option<String>,
    pub author: Option<AuthorInfo>,
}

/// The item type of a plugin of a category; a plugin without a category
/// counts as a development tool.
pub open spec fn category_type(category: Option<Seq<char>>) -> ItemType {
    let c = match category {
        Some(c) => c,
        None => "development"@,
    };
    if c == "development"@ {
        ItemType::Mainhand
    } else if c == "productivity"@ {
        ItemType::Offhand
    } else if c == "learning"@ || c == "testing"@ || c == "design"@ {
        ItemType::Spell
    } else if c == "security"@ {
        ItemType::Hooks
    } else if c == "database"@ || c == "deployment"@ || c == "monitoring"@ || c == "mcp"@ {
        ItemType::Trinket
    } else {
        ItemType::Mainhand
    }
}

/// Item type of a plugin from its category.
pub fn category_to_item_type(category: Option<&str>) -> (r: ItemType)
    ensures
        r == category_type(
            match category {
                Some(c) => Some(c@),
                None => None,
            },
        ),
{
    let c = match category {
        Some(c) => c,
        None => "development",
    };
    if same_text(c, "development") {
        ItemType::Mainhand
    } else if same_text(c, "productivity") {
        ItemType::Offhand
    } else if same_text(c, "learning") || same_text(c, "testing") || same_text(c, "design") {
        ItemType::Spell
    } else if same_text(c, "security") {
        ItemType::Hooks
    } else if same_text(c, "database") || same_text(c, "deployment") || same_text(c, "monitoring")
        || same_text(c, "mcp") {
        ItemType::Trinket
    } else {
        ItemType::Mainhand
    }
}

/// The rarity of a plugin: one with MCP servers is epic, one with a
/// language server rare, one by Anthropic rare, the rest common.
pub open spec fn plugin_rarity(author: Option<Seq<char>>, has_lsp: bool, has_mcp: bool) -> ItemRarity {
    if has_mcp {
        ItemRarity::Epic
    } else if has_lsp {
        ItemRarity::Rare
    } else if author is Some && has_infix(lowercase_of(author->Some_0), "anthropic"@) {
        ItemRarity::Rare
    } else {
        ItemRarity::Common
    }
}

/// The author's name of a plugin's metadata, if any.
pub open spec fn metadata_author(metadata: Option<&PluginMetadata>) -> Option<Seq<char>> {
    match metadata {
        Some(m) => match m.author {
            Some(a) => Some(author_name(a)),
            None => None,
        },
        None => None,
    }
}

/// Rarity of a plugin from its metadata and whether it has language or MCP
/// servers.
pub fn determine_rarity(metadata: Option<&PluginMetadata>, has_lsp: bool, has_mcp: bool) -> (r:
    ItemRarity)
    ensures
        r == plugin_rarity(metadata_author(metadata), has_lsp, has_mcp),
{
    if has_mcp {
        return ItemRarity::Epic;
    }
    if has_lsp {
        return ItemRarity::Rare;
    }
    if let Some(meta) = metadata {
        if let Some(author) = &meta.author {
            let lower = lowercase(author.name());
            if contains_text(lower.as_str(), "anthropic") {
                return ItemRarity::Rare;
            }
        }
    }
    ItemRarity::Common
}

/// An installed plugin: the first install entry recorded for its id.
pub struct InstalledPlugin {
    pub id: String,
    pub install_path: String,
    pub version: String,
    /// How many characters its top-level markdown and JSON files hold
    /// together; `None` when it has no install path or the path is missing.
    pub content_chars: Option<u64>,
}

/// Token weight of a plugin: 5000 when it is not installed where it says;
/// else a token for every four characters of its markdown and JSON files
/// and 1000 for the plugin itself, between 1000 and 50000.
pub open spec fn plugin_weight(content_chars: Option<u64>) -> int {
    match content_chars {
        Some(n) => clamp((n / 4 + 1000) as int, 1000, 50000),
        None => 5000,
    }
}

/// Token weight of a plugin from what its install folder holds.
pub fn estimate_plugin_weight(content_chars: Option<u64>) -> (r: u32)
    ensures
        r == plugin_weight(content_chars),
{
    match content_chars {
        Some(n) => {
            let tokens = n / 4;
            if tokens > 49000 {
                50000
            } else {
                tokens as u32 + 1000
            }
        },
        None => 5000,
    }
}

/// The metadata the catalog holds for `key`; a later entry for a key
/// overrides an earlier one.
pub open spec fn catalog_lookup(catalog: Seq<(String, PluginMetadata)>, key: Seq<char>) -> Option<PluginMetadata>
    decreases catalog.len(),
{
    if catalog.len() == 0 {
        None
    } else if catalog.last().0@ == key {
        Some(catalog.last().1)
    } else {
        catalog_lookup(catalog.drop_last(), key)
    }
}

fn find_metadata<'a>(catalog: &'a Vec<(String, PluginMetadata)>, key: &str) -> (r: Option<&'a PluginMetadata>)
    ensures
        match catalog_lookup(catalog@, key@) {
            Some(m) => r is Some && *r->Some_0 == m,
            None => r is None,
        },
{
    let mut i: usize = catalog.len();
    assert(catalog@.take(i as int) =~= catalog@);
    while i > 0
        invariant
            i <= catalog@.len(),
            catalog_lookup(catalog@, key@) == catalog_lookup(catalog@.take(i as int), key@),
        decreases i,
    {
        assert(catalog@.take(i as int).drop_last() =~= catalog@.take(i - 1));
        assert(catalog@.take(i as int).last() == catalog@[i - 1]);
        if same_text(catalog[i - 1].0.as_str(), key) {
            return Some(&catalog[i - 1].1);
        }
        i -= 1;
    }
    None
}

/// Whether a plugin's description speaks of a language server.
pub open spec fn mentions_lsp(description: Seq<char>) -> bool {
    has_infix(lowercase_of(description), "lsp"@) || has_infix(lowercase_of(description), "language server"@)
}

/// Whether a plugin's description speaks of MCP.
pub open spec fn mentions_mcp(description: Seq<char>) -> bool {
    has_infix(lowercase_of(description), "mcp"@)
}

/// The item type of a plugin with this metadata: MCP plugins are trinkets,
/// the rest go by category.
pub open spec fn plugin_type(meta: Option<PluginMetadata>) -> ItemType {
    match meta {
        Some(m) => if mentions_mcp(m.description@) {
            ItemType::Trinket
        } else {
            category_type(
                match m.category {
                    Some(c) => Some(c@),
                    None => None,
                },
            )
        },
        None => category_type(None),
    }
}

/// The rarity of a plugin with this metadata.
pub open spec fn plugin_rarity_of(meta: Option<PluginMetadata>) -> ItemRarity {
    match meta {
        Some(m) => plugin_rarity(
            match m.author {
                Some(a) => Some(author_name(a)),
                None => None,
            },
            mentions_lsp(m.description@),
            mentions_mcp(m.description@),
        ),
        None => plugin_rarity(None, false, false),
    }
}

/// The author's name of a plugin with this metadata, if any.
pub open spec fn plugin_author(meta: Option<PluginMetadata>) -> Option<Seq<char>> {
    match meta {
        Some(m) => match m.author {
            Some(a) => Some(author_name(a)),
            None => None,
        },
        None => None,
    }
}

/// The name of a plugin id: what precedes its first `@`.
pub open spec fn plugin_base_name(id: Seq<char>) -> Seq<char> {
    pieces(id, '@')[0]
}

/// `item` is the inventory item of the installed plugin `p`, with the
/// catalog's metadata `meta` and whether the settings enable it.
pub open spec fn is_installed_item(item: InventoryItem, p: InstalledPlugin, meta: Option<PluginMetadata>, enabled: bool) -> bool {
    &&& item.id@ == p.id@
    &&& item.name@ == match meta {
        Some(m) => m.name@,
        None => plugin_base_name(p.id@),
    }
    &&& item.description@ == match meta {
        Some(m) => m.description@,
        None => "Plugin: "@ + plugin_base_name(p.id@),
    }
    &&& item.item_type == plugin_type(meta)
    &&& item.rarity == plugin_rarity_of(meta)
    &&& item.source == ItemSource::Plugin
    &&& item.source_path@ == p.install_path@
    &&& item.token_weight == plugin_weight(p.content_chars)
    &&& item.enabled == enabled
    &&& item.version is Some && item.version->Some_0@ == p.version@
    &&& match plugin_author(meta) {
        Some(a) => item.author is Some && item.author->Some_0@ == a,
        None => item.author is None,
    }
    &&& item.status is None
}

/// `item` is the inventory item of the catalog plugin `key` that is not
/// installed.
pub open spec fn is_available_item(item: InventoryItem, key: Seq<char>, m: PluginMetadata) -> bool {
    &&& item.id@ == key
    &&& item.name@ == m.name@
    &&& item.description@ == m.description@
    &&& item.item_type == plugin_type(Some(m))
    &&& item.rarity == plugin_rarity_of(Some(m))
    &&& item.source == ItemSource::Plugin
    &&& item.source_path@.len() == 0
    &&& item.token_weight == 5000
    &&& !item.enabled
    &&& match m.version {
        Some(v) => item.version is Some && item.version->Some_0@ == v@,
        None => item.version is None,
    }
    &&& match plugin_author(Some(m)) {
        Some(a) => item.author is Some && item.author->Some_0@ == a,
        None => item.author is None,
    }
    &&& item.status is None
}

fn author_of(meta: Option<&PluginMetadata>) -> (r: Option<String>)
    ensures
        match plugin_author(
            match meta {
                Some(m) => Some(*m),
                None => None,
            },
        ) {
            Some(a) => r is Some && r->Some_0@ == a,
            None => r is None,
        },
{
    match meta {
        Some(m) => match &m.author {
            Some(a) => Some(String::from_str(a.name())),
            None => None,
        },
        None => None,
    }
}

fn plugin_traits(meta: Option<&PluginMetadata>) -> (r: (ItemType, ItemRarity))
    ensures
        r.0 == plugin_type(
            match meta {
                Some(m) => Some(*m),
                None => None,
            },
        ),
        r.1 == plugin_rarity_of(
            match meta {
                Some(m) => Some(*m),
                None => None,
            },
        ),
{
    match meta {
        Some(m) => {
            let lower = lowercase(m.description.as_str());
            let has_lsp = contains_text(lower.as_str(), "lsp") || contains_text(
                lower.as_str(),
                "language server",
            );
            let has_mcp = contains_text(lower.as_str(), "mcp");
            let item_type = if has_mcp {
                ItemType::Trinket
            } else {
                category_to_item_type(
                    match &m.category {
                        Some(c) => Some(c.as_str()),
                        None => None,
                    },
                )
            };
            (item_type, determine_rarity(Some(m), has_lsp, has_mcp))
        },
        None => (category_to_item_type(None), determine_rarity(None, false, false)),
    }
}

fn installed_item(p: &InstalledPlugin, catalog: &Vec<(String, PluginMetadata)>, settings: &ClaudeSettings) -> (r:
    InventoryItem)
    ensures
        is_installed_item(
            r,
            *p,
            catalog_lookup(catalog@, p.id@),
            settings.plugins().contains_key(p.id@) && settings.plugins()[p.id@],
        ),
{
    let meta = find_metadata(catalog, p.id.as_str());
    let parts = split_text(p.id.as_str(), '@');
    proof {
        lemma_pieces_nonempty(p.id@, '@');
        assert(views(parts@).len() == parts@.len());
    }
    assert(views(parts@)[0] == parts@[0]@);
    let base = &parts[0];
    let name = match meta {
        Some(m) => m.name.clone(),
        None => base.clone(),
    };
    let description = match meta {
        Some(m) => m.description.clone(),
        None => concat_text("Plugin: ", base.as_str()),
    };
    let (item_type, rarity) = plugin_traits(meta);
    InventoryItem {
        id: p.id.clone(),
        name,
        description,
        item_type,
        rarity,
        source: ItemSource::Plugin,
        source_path: p.install_path.clone(),
        token_weight: estimate_plugin_weight(p.content_chars),
        enabled: settings.is_enabled(p.id.as_str()),
        version: Some(p.version.clone()),
        author: author_of(meta),
        status: None,
    }
}

fn available_item(key: &String, m: &PluginMetadata) -> (r: InventoryItem)
    ensures
        is_available_item(r, key@, *m),
{
    let (item_type, rarity) = plugin_traits(Some(m));
    InventoryItem {
        id: key.clone(),
        name: m.name.clone(),
        description: m.description.clone(),
        item_type,
        rarity,
        source: ItemSource::Plugin,
        source_path: String::new(),
        token_weight: 5000,
        enabled: false,
        version: match &m.version {
            Some(v) => Some(v.clone()),
            None => None,
        },
        author: author_of(Some(m)),
        status: None,
    }
}

/// Whether some installed plugin has the id `key`.
pub open spec fn is_installed(installed: Seq<InstalledPlugin>, key: Seq<char>) -> bool {
    exists|j: int| 0 <= j < installed.len() && (#[trigger] installed[j]).id@ == key
}

fn installed_exec(installed: &Vec<InstalledPlugin>, key: &str) -> (r: bool)
    ensures
        r == is_installed(installed@, key@),
{
    let mut j: usize = 0;
    while j < installed.len()
        invariant
            j <= installed@.len(),
            forall|k: int| 0 <= k < j ==> installed@[k].id@ != key@,
        decreases installed@.len() - j,
    {
        if same_text(installed[j].id.as_str(), key) {
            return true;
        }
        j += 1;
    }
    false
}

/// What an item of the plugin scan stands for.
pub enum PluginRow {
    /// An installed plugin, with its catalog metadata and whether it is
    /// enabled.
    Installed(InstalledPlugin, Option<PluginMetadata>, bool),
    /// A catalog entry that is not installed.
    Available(String, PluginMetadata),
}

/// The catalog entries of the first `n`, in order, whose plugin is not
/// installed.
pub open spec fn available_rows(installed: Seq<InstalledPlugin>, catalog: Seq<(String, PluginMetadata)>) -> Seq<
    PluginRow,
>
    decreases catalog.len(),
{
    if catalog.len() == 0 {
        Seq::empty()
    } else if is_installed(installed, catalog.last().0@) {
        available_rows(installed, catalog.drop_last())
    } else {
        available_rows(installed, catalog.drop_last()).push(
            PluginRow::Available(catalog.last().0, catalog.last().1),
        )
    }
}

/// The rows of the plugin scan: each installed plugin, then each catalog
/// entry that is not installed.
pub open spec fn plugin_rows(
    settings: ClaudeSettings,
    installed: Seq<InstalledPlugin>,
    catalog: Seq<(String, PluginMetadata)>,
) -> Seq<PluginRow> {
    installed.map_values(
        |p: InstalledPlugin|
            PluginRow::Installed(
                p,
                catalog_lookup(catalog, p.id@),
                settings.plugins().contains_key(p.id@) && settings.plugins()[p.id@],
            ),
    ) + available_rows(installed, catalog)
}

/// Whether `item` is the item of `row`.
pub open spec fn is_plugin_item(item: InventoryItem, row: PluginRow) -> bool {
    match row {
        PluginRow::Installed(p, meta, enabled) => is_installed_item(item, p, meta, enabled),
        PluginRow::Available(key, m) => is_available_item(item, key@, m),
    }
}

/// Whether an item is the item of a given row of the plugin scan.
pub open spec fn plugin_fits(
    settings: ClaudeSettings,
    installed: Seq<InstalledPlugin>,
    catalog: Seq<(String, PluginMetadata)>,
) -> spec_fn(InventoryItem, int) -> bool {
    |it: InventoryItem, j: int|
        0 <= j < plugin_rows(settings, installed, catalog).len() && is_plugin_item(
            it,
            plugin_rows(settings, installed, catalog)[j],
        )
}

/// The items of the installed plugins and of the catalog's other plugins,
/// ordered by lower-case name. `installed` holds one entry for each
/// installed plugin; `catalog` holds the marketplace catalogs' entries,
/// keyed `name@marketplace`. Ids and keys are read from maps and so are
/// unique; should one repeat, each installed entry still gives an item, a
/// repeated catalog key gives one item per entry that is not installed, and
/// an installed plugin takes the metadata of the last entry with its key.
pub fn scan_plugins(
    settings: &ClaudeSettings,
    installed: &Vec<InstalledPlugin>,
    catalog: &Vec<(String, PluginMetadata)>,
) -> (r: Vec<InventoryItem>)
    ensures
        r@.len() == plugin_rows(*settings, installed@, catalog@).len(),
        sorted_by_name(r@),
        permutes_rows(r@, plugin_fits(*settings, installed@, catalog@), plugin_rows(*settings, installed@, catalog@).len() as int),
        forall|k: int|
            0 <= k < r@.len() ==> meets_some_row(
                #[trigger] r@[k],
                plugin_fits(*settings, installed@, catalog@),
                plugin_rows(*settings, installed@, catalog@).len() as int,
            ),
        forall|j: int|
            0 <= j < plugin_rows(*settings, installed@, catalog@).len() ==> #[trigger] row_met(
                r@,
                plugin_fits(*settings, installed@, catalog@),
                j,
            ),
{
    let ghost rows = plugin_rows(*settings, installed@, catalog@);
    let ghost irows = installed@.map_values(
        |p: InstalledPlugin|
            PluginRow::Installed(
                p,
                catalog_lookup(catalog@, p.id@),
                settings.plugins().contains_key(p.id@) && settings.plugins()[p.id@],
            ),
    );
    let mut items: Vec<InventoryItem> = Vec::new();
    let mut i: usize = 0;
    while i < installed.len()
        invariant
            i <= installed@.len(),
            items@.len() == i,
            forall|k: int|
                0 <= k < i ==> is_installed_item(
                    #[trigger] items@[k],
                    installed@[k],
                    catalog_lookup(catalog@, installed@[k].id@),
                    settings.plugins().contains_key(installed@[k].id@)
                        && settings.plugins()[installed@[k].id@],
                ),
        decreases installed@.len() - i,
    {
        items.push(installed_item(&installed[i], catalog, settings));
        i += 1;
    }
    assert forall|k: int| 0 <= k < items@.len() implies is_plugin_item(#[trigger] items@[k], irows[k]) by {
        assert(irows[k] == PluginRow::Installed(
            installed@[k],
            catalog_lookup(catalog@, installed@[k].id@),
            settings.plugins().contains_key(installed@[k].id@) && settings.plugins()[installed@[k].id@],
        ));
    }
    assert(irows + available_rows(installed@, catalog@.take(0)) =~= irows);
    let mut c: usize = 0;
    assert(catalog@.take(0) =~= Seq::<(String, PluginMetadata)>::empty());
    while c < catalog.len()
        invariant
            c <= catalog@.len(),
            items@.len() == irows.len() + available_rows(installed@, catalog@.take(c as int)).len(),
            forall|k: int|
                0 <= k < items@.len() ==> is_plugin_item(
                    #[trigger] items@[k],
                    (irows + available_rows(installed@, catalog@.take(c as int)))[k],
                ),
        decreases catalog@.len() - c,
    {
        let ghost before = irows + available_rows(installed@, catalog@.take(c as int));
        assert(catalog@.take(c + 1).drop_last() =~= catalog@.take(c as int));
        assert(catalog@.take(c + 1).last() == catalog@[c as int]);
        let entry = &catalog[c];
        if !installed_exec(installed, entry.0.as_str()) {
            let ghost old_items = items@;
            items.push(available_item(&entry.0, &entry.1));
            let ghost after = irows + available_rows(installed@, catalog@.take(c + 1));
            assert(after =~= before.push(PluginRow::Available(entry.0, entry.1)));
            assert forall|k: int| 0 <= k < items@.len() implies is_plugin_item(#[trigger] items@[k], after[k]) by {
                if k < old_items.len() {
                    assert(items@[k] == old_items[k]);
                }
            }
        } else {
            assert(irows + available_rows(installed@, catalog@.take(c + 1)) =~= before);
        }
        c += 1;
    }
    assert(catalog@.take(catalog@.len() as int) =~= catalog@);
    let ghost a = items@;
    let ghost fits = plugin_fits(*settings, installed@, catalog@);
    assert forall|k: int| 0 <= k < a.len() implies #[trigger] fits(a[k], k) by {
        assert(rows == irows + available_rows(installed@, catalog@));
    }
    let r = sort_by_name(items);
    proof {
        lemma_reordered_rows(a, r@, fits);
        a.to_multiset_ensures();
        r@.to_multiset_ensures();
    }
    r
}

} // verus!
