//! Token estimates.

use vstd::prelude::*;
use vstd::string::*;

verus! {

/// `x` held between `lo` and `hi`.
pub open spec fn clamp(x: int, lo: int, hi: int) -> int {
    if x < lo {
        lo
    } else if x > hi {
        hi
    } else {
        x
    }
}

/// Four characters to a token, rounded up, capped at `u32::MAX`.
pub open spec fn tokens_for_chars(n: nat) -> nat {
    let t = (n + 3) / 4;
    if t > u32::MAX { u32::MAX as nat } else { t }
}

/// Estimated token count of `content`: its characters divided by four,
/// rounded up.
pub fn estimate_tokens(content: &str) -> (r: u32)
    ensures
        r == tokens_for_chars(content@.len()),
{
    let n = content.unicode_len();
    let t = n / 4 + if n % 4 == 0 { 0 } else { 1 };
    assert(t == (n + 3) / 4);
    if t > u32::MAX as usize {
        u32::MAX
    } else {
        t as u32
    }
}

} // verus!
