//! Scalar checks on tip values.

use vstd::prelude::*;

use crate::constants::MIN_TIP_LAMPORTS;

verus! {

/// Whether a tip of `amount` native base units reaches the minimum value a
/// contribution must carry.
pub fn meets_minimum_tip(amount: u64) -> (r: bool)
    ensures
        r == (amount >= MIN_TIP_LAMPORTS),
{
    amount >= MIN_TIP_LAMPORTS
}

} // verus!
