//! The minimisation ledger: the minimised windows in the order in which
//! they were minimised, the one minimised longest ago first.

use vstd::prelude::*;
use crate::types::Window;

verus! {

/// Whether the ledger lists `w`.
pub fn listed(ledger: &Vec<Window>, w: Window) -> (b: bool)
    ensures
        b == ledger@.contains(w),
{
    let mut i: usize = 0;
    while i < ledger.len()
        invariant
            i <= ledger.len(),
            forall|k: int| 0 <= k < i ==> ledger@[k] != w,
        decreases ledger.len() - i,
    {
        if ledger[i] == w {
            return true;
        }
        i += 1;
    }
    false
}

/// Strikes `w` off the ledger, if it is listed; the others keep their
/// order.
pub fn strike(ledger: &mut Vec<Window>, w: Window)
    ensures
        final(ledger)@ == old(ledger)@.remove_value(w),
{
    let mut i: usize = 0;
    while i < ledger.len()
        invariant
            i <= ledger.len(),
            ledger@ == old(ledger)@,
            forall|k: int| 0 <= k < i ==> ledger@[k] != w,
        decreases ledger.len() - i,
    {
        if ledger[i] == w {
            assert(ledger@.index_of_first(w) == Some(i as int)) by {
                ledger@.index_of_first_ensures(w);
                assert(ledger@[i as int] == w);
            }
            ledger.remove(i);
            return ;
        }
        i += 1;
    }
    proof {
        ledger@.index_of_first_ensures(w);
    }
}

} // verus!
