//! The settle-once rule of a promise capability.

use vstd::prelude::*;

verus! {

/// Whether a promise capability has been settled. Its resolve and reject
/// functions take effect for the first call to either, and never again.
#[derive(Clone, Copy, Debug, PartialEq, Eq)]
pub struct SettleState {
    pub settled: bool,
}

/// The answer to a settling call and the state after it: whether the call
/// takes effect, which it does only on an unsettled capability.
pub open spec fn settle_step(s: SettleState) -> (bool, SettleState) {
    (!s.settled, SettleState { settled: true })
}

impl SettleState {
    /// A capability that is not settled yet.
    pub fn new() -> (r: SettleState)
        ensures
            !r.settled,
    {
        SettleState { settled: false }
    }

    /// Marks the capability settled; returns whether this call may settle
    /// it, that is whether it was still unsettled.
    pub fn mark_settled(&mut self) -> (r: bool)
        ensures
            (r, *final(self)) == settle_step(*old(self)),
    {
        if !self.settled {
            self.settled = true;
            true
        } else {
            false
        }
    }
}

/// Of any two settling calls on a fresh capability (resolve then reject,
/// or either twice), only the first takes effect, and every later call is
/// refused too.
pub proof fn lemma_settle_once(s: SettleState)
    requires
        !s.settled,
    ensures
        settle_step(s).0,
        !settle_step(settle_step(s).1).0,
        forall|t: SettleState| t.settled ==> !(#[trigger] settle_step(t)).0 && settle_step(t).1 == t,
{
}

} // verus!
