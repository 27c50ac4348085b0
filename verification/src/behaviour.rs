//! The decisions of the two simple explorer behaviours: the roamer, which
//! harvests a little on each planet and hops to a random neighbour, and the
//! homebody, which farms its planet and only leaves after a run of fruitless
//! rounds.

use vstd::prelude::*;
use crate::chance::gen_index;

verus! {

/// Where a roaming explorer goes after harvesting: a neighbour picked at
/// random, or nowhere (it waits and asks again) when it has none.
pub fn roam_target(neighbors: &Vec<u32>) -> (dst: Option<u32>)
    ensures
        dst is None <==> neighbors@.len() == 0,
        dst matches Some(d) ==> neighbors@.contains(d),
{
    if neighbors.len() == 0 {
        None
    } else {
        let i = gen_index(neighbors.len());
        Some(neighbors[i])
    }
}

/// How many fruitless rounds in a row make the homebody give up its planet.
pub const GIVE_UP_AFTER: u32 = 5;

/// The homebody's memory between rounds.
pub struct HarvestState {
    pub consecutive_failures: u32,
}

impl HarvestState {
    pub open spec fn wf(self) -> bool {
        self.consecutive_failures < GIVE_UP_AFTER
    }

    pub fn new() -> (s: HarvestState)
        ensures
            s.consecutive_failures == 0,
            s.wf(),
    {
        HarvestState { consecutive_failures: 0 }
    }

    /// Records one round of harvesting. A round with any success clears the
    /// count of failures; a fruitless one adds to it, and the round that
    /// reaches `GIVE_UP_AFTER` clears it again and returns `true`: time to
    /// leave for a neighbour.
    pub fn after_round(&mut self, any_success: bool) -> (give_up: bool)
        requires
            old(self).wf(),
        ensures
            final(self).wf(),
            any_success ==> !give_up && final(self).consecutive_failures == 0,
            !any_success ==> give_up == (old(self).consecutive_failures + 1 >= GIVE_UP_AFTER),
            !any_success && !give_up ==> final(self).consecutive_failures == old(self).consecutive_failures + 1,
            give_up ==> final(self).consecutive_failures == 0,
    {
        if any_success {
            self.consecutive_failures = 0;
            return false;
        }
        self.consecutive_failures = self.consecutive_failures + 1;
        if self.consecutive_failures >= GIVE_UP_AFTER {
            self.consecutive_failures = 0;
            true
        } else {
            false
        }
    }
}

/// Where a homebody that gives up goes: its first neighbour, if any.
pub fn give_up_target(neighbors: &Vec<u32>) -> (dst: Option<u32>)
    ensures
        dst == (if neighbors@.len() == 0 { None } else { Some(neighbors@[0]) }),
{
    if neighbors.len() == 0 {
        None
    } else {
        Some(neighbors[0])
    }
}

} // verus!
