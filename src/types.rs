//! Inventory items and equipment slots.

use vstd::prelude::*;
use vstd::multiset::Multiset;
use crate::text::{lemma_text_le_total, lowercase, lowercase_of, text_le, text_le_exec};

verus! {

/// The kind of an inventory item.
#[derive(Debug, Clone, Copy, PartialEq, Eq, Structural)]
pub enum ItemType {
    /// Memory files and system prompts.
    Helm,
    /// Hooks of every event.
    Hooks,
    /// Primary framework plugin.
    Mainhand,
    /// Secondary plugin.
    Offhand,
    /// Slash commands.
    Ring,
    /// Skills.
    Spell,
    /// Subagents, which run in a context of their own.
    Companion,
    /// MCP servers.
    Trinket,
}

/// How valuable an item is judged to be, from least to most.
#[derive(Debug, Clone, Copy, PartialEq, Eq, Structural)]
pub enum ItemRarity {
    Common,
    Uncommon,
    Rare,
    Epic,
    Legendary,
}

/// Where an item was found.
#[derive(Debug, Clone, Copy, PartialEq, Eq, Structural)]
pub enum ItemSource {
    Plugin,
    Skill,
    Subagent,
    Hook,
    Command,
    Mcp,
    ClaudeMd,
    Permission,
}

/// Connection status of an item, chiefly of MCP servers.
#[derive(Debug, Clone, Copy, PartialEq, Eq, Structural)]
pub enum ItemConnectionStatus {
    Connected,
    Disconnected,
    Unknown,
    Connecting,
    Error,
}

/// Live status of an item.
#[derive(Debug, Clone, Default)]
pub struct ItemStatus {
    pub connection_status: Option<ItemConnectionStatus>,
    pub last_used: Option<u64>,
    pub run_count: Option<u32>,
    pub is_active: Option<bool>,
    pub base_tokens: Option<u32>,
    pub invoked_tokens: Option<u32>,
    pub current_tokens: Option<u32>,
    pub isolated_context_usage: Option<u32>,
    pub isolated_context_budget: Option<u32>,
    pub tasks_completed: Option<u32>,
    pub last_error: Option<String>,
    pub error_count: Option<u32>,
}

/// One item of the inventory.
#[derive(Debug, Clone)]
pub struct InventoryItem {
    pub id: String,
    pub name: String,
    pub description: String,
    pub item_type: ItemType,
    pub rarity: ItemRarity,
    pub source: ItemSource,
    pub source_path: String,
    pub token_weight: u32,
    pub enabled: bool,
    pub version: Option<String>,
    pub author: Option<String>,
    pub status: Option<ItemStatus>,
}

/// The items of a scan, with the errors met on the way.
#[derive(Debug, Clone)]
pub struct ScanResult {
    pub items: Vec<InventoryItem>,
    pub errors: Vec<String>,
    pub scan_duration_ms: u64,
}

/// The kind of an equipment slot.
#[derive(Debug, Clone, Copy, PartialEq, Eq, Structural)]
pub enum EquipmentSlotType {
    Helm,
    Hooks,
    Mainhand,
    Offhand,
    Rings,
    Spellbook,
    Companions,
    Trinkets,
}

/// Position of a slot in the layout around the character.
#[derive(Debug, Clone, Copy, PartialEq, Eq, Structural)]
pub enum SlotPosition {
    Helm,
    Hook1,
    Hook2,
    Hook3,
    Hook4,
    Hook5,
    Hook6,
    Mainhand,
    Offhand,
    RingLeft,
    RingRight,
    Trinket1,
    Trinket2,
    Trinket3,
    Spell1,
    Spell2,
    Spell3,
    Spell4,
    Spell5,
    Spell6,
    Companion1,
    Companion2,
    Companion3,
}

/// An equipment slot.
#[derive(Debug, Clone)]
pub struct EquipmentSlot {
    pub slot_type: EquipmentSlotType,
    pub position: Option<SlotPosition>,
    pub index: Option<usize>,
}

/// What is equipped in each slot.
#[derive(Debug, Clone)]
pub struct Equipment {
    pub helm: Option<InventoryItem>,
    pub hooks: Vec<InventoryItem>,
    pub mainhand: Option<InventoryItem>,
    pub offhand: Option<InventoryItem>,
    pub rings: Vec<InventoryItem>,
    pub spellbook: Vec<InventoryItem>,
    pub companions: Vec<InventoryItem>,
    pub trinkets: Vec<InventoryItem>,
}

impl Default for Equipment {
    /// Nothing equipped.
    fn default() -> (r: Self)
        ensures
            r.helm is None,
            r.hooks@.len() == 0,
            r.mainhand is None,
            r.offhand is None,
            r.rings@.len() == 0,
            r.spellbook@.len() == 0,
            r.companions@.len() == 0,
            r.trinkets@.len() == 0,
    {
        Equipment {
            helm: None,
            hooks: Vec::new(),
            mainhand: None,
            offhand: None,
            rings: Vec::new(),
            spellbook: Vec::new(),
            companions: Vec::new(),
            trinkets: Vec::new(),
        }
    }
}

/// How many items each multi-item slot holds.
#[derive(Debug, Clone, Copy, PartialEq, Eq, Structural)]
pub struct SlotLimits {
    pub hooks: usize,
    pub rings: usize,
    pub spellbook: usize,
    pub companions: usize,
    pub trinkets: usize,
}

impl SlotLimits {
    /// The limits in force: six hooks, two rings, six spells, three
    /// companions and three trinkets.
    pub fn standard() -> (r: Self)
        ensures
            r == (SlotLimits { hooks: 6, rings: 2, spellbook: 6, companions: 3, trinkets: 3 }),
    {
        SlotLimits { hooks: 6, rings: 2, spellbook: 6, companions: 3, trinkets: 3 }
    }
}

/// The slot kind that holds items of type `t`.
pub open spec fn slot_of(t: ItemType) -> EquipmentSlotType {
    match t {
        ItemType::Helm => EquipmentSlotType::Helm,
        ItemType::Hooks => EquipmentSlotType::Hooks,
        ItemType::Mainhand => EquipmentSlotType::Mainhand,
        ItemType::Offhand => EquipmentSlotType::Offhand,
        ItemType::Ring => EquipmentSlotType::Rings,
        ItemType::Spell => EquipmentSlotType::Spellbook,
        ItemType::Companion => EquipmentSlotType::Companions,
        ItemType::Trinket => EquipmentSlotType::Trinkets,
    }
}

impl ItemType {
    /// The slot kind that holds items of this type.
    pub fn to_slot_type(&self) -> (r: EquipmentSlotType)
        ensures
            r == slot_of(*self),
    {
        match self {
            ItemType::Helm => EquipmentSlotType::Helm,
            ItemType::Hooks => EquipmentSlotType::Hooks,
            ItemType::Mainhand => EquipmentSlotType::Mainhand,
            ItemType::Offhand => EquipmentSlotType::Offhand,
            ItemType::Ring => EquipmentSlotType::Rings,
            ItemType::Spell => EquipmentSlotType::Spellbook,
            ItemType::Companion => EquipmentSlotType::Companions,
            ItemType::Trinket => EquipmentSlotType::Trinkets,
        }
    }
}

/// The key items are listed by: the name in lower case.
pub open spec fn name_key(item: InventoryItem) -> Seq<char> {
    lowercase_of(item.name@)
}

/// Each item's key is at most the next one's.
pub open spec fn sorted_by_name(items: Seq<InventoryItem>) -> bool {
    forall|i: int| 0 <= i < items.len() - 1 ==> text_le(name_key(items[i]), name_key(#[trigger] items[i + 1]))
}

/// The same items ordered by lower-case name.
pub fn sort_by_name(items: Vec<InventoryItem>) -> (r: Vec<InventoryItem>)
    ensures
        r@.to_multiset() == items@.to_multiset(),
        sorted_by_name(r@),
{
    broadcast use vstd::seq_lib::group_seq_properties, vstd::multiset::group_multiset_axioms;

    let ghost orig = items@;
    let mut rest = items;
    let mut out: Vec<InventoryItem> = Vec::new();
    let mut keys: Vec<String> = Vec::new();
    assert(out@.to_multiset() =~= Multiset::empty()) by {
        assert(out@.to_multiset().len() == 0);
    }
    assert(out@.to_multiset().add(rest@.to_multiset()) =~= orig.to_multiset());
    while rest.len() > 0
        invariant
            out@.to_multiset().add(rest@.to_multiset()) == orig.to_multiset(),
            keys@.len() == out@.len(),
            forall|k: int| 0 <= k < out@.len() ==> (#[trigger] keys@[k])@ == name_key(out@[k]),
            sorted_by_name(out@),
        decreases rest@.len(),
    {
        let ghost before = rest@;
        let item = rest.remove(0);
        proof {
            assert(rest@ == before.remove(0));
            vstd::seq_lib::to_multiset_remove(before, 0);
            before.to_multiset_ensures();
            assert(before[0] == item);
            assert(before.contains(item));
        }
        let ghost out_before = out@;
        let key = lowercase(item.name.as_str());
        let mut p: usize = out.len();
        while p > 0 && !text_le_exec(keys[p - 1].as_str(), key.as_str())
            invariant
                p <= out@.len(),
                keys@.len() == out@.len(),
                forall|k: int| 0 <= k < out@.len() ==> (#[trigger] keys@[k])@ == name_key(out@[k]),
                p < out@.len() ==> !text_le(name_key(out@[p as int]), key@),
                sorted_by_name(out@),
            decreases p,
        {
            p -= 1;
        }
        let ghost old_out = out@;
        proof {
            if p > 0 {
                assert(keys@[p - 1]@ == name_key(old_out[p - 1]));
                assert(text_le(name_key(old_out[p - 1]), key@));
            }
            if p < old_out.len() {
                lemma_text_le_total(name_key(old_out[p as int]), key@);
                assert(text_le(key@, name_key(old_out[p as int])));
            }
        }
        out.insert(p, item);
        keys.insert(p, key);
        proof {
            vstd::seq_lib::to_multiset_insert(old_out, p as int, item);
        }
        assert(out@[p as int] == item);
        assert forall|i: int| 0 <= i < out@.len() - 1 implies text_le(
            name_key(out@[i]),
            name_key(#[trigger] out@[i + 1]),
        ) by {
            if i + 1 < p {
                assert(out@[i] == old_out[i] && out@[i + 1] == old_out[i + 1]);
                assert(text_le(name_key(old_out[i]), name_key(old_out[i + 1])));
            } else if i + 1 == p {
                assert(out@[i] == old_out[i]);
            } else if i == p {
                assert(out@[i + 1] == old_out[i]);
            } else {
                assert(out@[i] == old_out[i - 1] && out@[i + 1] == old_out[i]);
                let j = i - 1;
                assert(text_le(name_key(old_out[j]), name_key(old_out[j + 1])));
            }
        }
        assert(out@.to_multiset() == out_before.to_multiset().insert(item));
        assert(out@.to_multiset().add(rest@.to_multiset()) =~= orig.to_multiset());
        assert forall|k: int| 0 <= k < out@.len() implies (#[trigger] keys@[k])@ == name_key(out@[k]) by {
            if k < p {
            } else if k > p {
                assert(out@[k] == old_out[k - 1]);
            }
        }
    }
    out
}

/// Some item of `items` meets `fits` for the row `j`.
pub open spec fn row_met(items: Seq<InventoryItem>, fits: spec_fn(InventoryItem, int) -> bool, j: int) -> bool {
    exists|k: int| 0 <= k < items.len() && #[trigger] fits(items[k], j)
}

/// The item meets `fits` for some row below `n`.
pub open spec fn meets_some_row(item: InventoryItem, fits: spec_fn(InventoryItem, int) -> bool, n: int) -> bool {
    exists|j: int| 0 <= j < n && #[trigger] fits(item, j)
}

/// `a` holds, for each of the `n` rows in order, an item that meets it.
pub open spec fn items_for_rows(a: Seq<InventoryItem>, fits: spec_fn(InventoryItem, int) -> bool, n: int) -> bool {
    a.len() == n && forall|k: int| 0 <= k < n ==> #[trigger] fits(a[k], k)
}

/// `r` is a reordering of items that meet the `n` rows, one for each.
pub open spec fn permutes_rows(r: Seq<InventoryItem>, fits: spec_fn(InventoryItem, int) -> bool, n: int) -> bool {
    exists|a: Seq<InventoryItem>| #[trigger] items_for_rows(a, fits, n) && r.to_multiset() == a.to_multiset()
}

/// Reordering items that each meet their row keeps every row met, and
/// every item meets some row.
pub proof fn lemma_reordered_rows(
    a: Seq<InventoryItem>,
    r: Seq<InventoryItem>,
    fits: spec_fn(InventoryItem, int) -> bool,
)
    requires
        a.to_multiset() == r.to_multiset(),
        forall|k: int| 0 <= k < a.len() ==> #[trigger] fits(a[k], k),
    ensures
        forall|k: int| 0 <= k < r.len() ==> meets_some_row(#[trigger] r[k], fits, a.len() as int),
        forall|j: int| 0 <= j < a.len() ==> #[trigger] row_met(r, fits, j),
        permutes_rows(r, fits, a.len() as int),
{
    assert(items_for_rows(a, fits, a.len() as int));
    a.to_multiset_ensures();
    r.to_multiset_ensures();
    assert forall|k: int| 0 <= k < r.len() implies meets_some_row(#[trigger] r[k], fits, a.len() as int) by {
        assert(r.contains(r[k]));
        assert(r.to_multiset().count(r[k]) > 0);
        assert(a.contains(r[k]));
        let j = choose|j: int| 0 <= j < a.len() && a[j] == r[k];
        assert(fits(a[j], j));
    }
    assert forall|j: int| 0 <= j < a.len() implies #[trigger] row_met(r, fits, j) by {
        assert(a.contains(a[j]));
        assert(a.to_multiset().count(a[j]) > 0);
        assert(r.contains(a[j]));
        let k = choose|k: int| 0 <= k < r.len() && r[k] == a[j];
        assert(fits(a[j], j));
        assert(fits(r[k], j));
    }
}

} // verus!
