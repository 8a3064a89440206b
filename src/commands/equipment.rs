//! How much of the context budget the equipped items take.

use vstd::prelude::*;
use crate::types::InventoryItem;

verus! {

/// The token budget of a context.
pub const TOTAL_BUDGET: u32 = 200000;

/// How loaded a context is: under a quarter of the budget is healthy, under
/// half heavy, the rest beyond what the model handles well.
pub open spec fn load_status(equipped: int, budget: int) -> Seq<char> {
    if 4 * equipped < budget {
        "healthy"@
    } else if 2 * equipped < budget {
        "heavy"@
    } else {
        "dumbzone"@
    }
}

/// How loaded a context with `equipped` tokens of a budget of `budget` is.
pub fn context_status(equipped: u32, budget: u32) -> (r: &'static str)
    ensures
        r@ == load_status(equipped as int, budget as int),
{
    if 4 * (equipped as u64) < budget as u64 {
        "healthy"
    } else if 2 * (equipped as u64) < budget as u64 {
        "heavy"
    } else {
        "dumbzone"
    }
}

/// The tokens of the enabled items among `items`, summed; the sum stops at
/// the largest `u32`.
pub open spec fn enabled_tokens(items: Seq<InventoryItem>) -> int
    decreases items.len(),
{
    if items.len() == 0 {
        0
    } else {
        let before = enabled_tokens(items.drop_last());
        let w = if items.last().enabled {
            items.last().token_weight as int
        } else {
            0
        };
        if before + w > u32::MAX {
            u32::MAX as int
        } else {
            before + w
        }
    }
}

/// The tokens the enabled items take.
pub fn equipped_tokens(items: &Vec<InventoryItem>) -> (r: u32)
    ensures
        r == enabled_tokens(items@),
{
    let mut total: u32 = 0;
    let mut i: usize = 0;
    assert(items@.take(0) =~= Seq::<InventoryItem>::empty());
    while i < items.len()
        invariant
            i <= items@.len(),
            total == enabled_tokens(items@.take(i as int)),
        decreases items@.len() - i,
    {
        assert(items@.take(i + 1).drop_last() =~= items@.take(i as int));
        assert(items@.take(i + 1).last() == items@[i as int]);
        if items[i].enabled {
            total = total.saturating_add(items[i].token_weight);
        }
        i += 1;
    }
    assert(items@.take(items@.len() as int) =~= items@);
    total
}

/// The warning to show once an item is equipped, for the context's status.
pub fn equip_warnings(status: &str) -> (r: Vec<String>)
    ensures
        status@ == "heavy"@ ==> r@.len() == 1 && r@[0]@
            == "Context is getting heavy. Consider unequipping some items."@,
        status@ == "dumbzone"@ ==> r@.len() == 1 && r@[0]@
            == "DUMBZONE! The model's performance will degrade significantly."@,
        status@ != "heavy"@ && status@ != "dumbzone"@ ==> r@.len() == 0,
{
    proof {
        reveal_strlit("heavy");
        reveal_strlit("dumbzone");
        assert("heavy"@.len() == 5);
        assert("dumbzone"@.len() == 8);
        assert("heavy"@ != "dumbzone"@);
    }
    let mut warnings: Vec<String> = Vec::new();
    if crate::text::same_text(status, "heavy") {
        warnings.push(String::from_str("Context is getting heavy. Consider unequipping some items."));
    } else if crate::text::same_text(status, "dumbzone") {
        warnings.push(String::from_str("DUMBZONE! The model's performance will degrade significantly."));
    }
    warnings
}

} // verus!
