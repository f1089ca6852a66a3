//! A static stake table: who may vote, with what weight, who leads each view,
//! and how much stake a certificate needs.
use vstd::prelude::*;

verus! {

/// The stake of `node`: that of its first entry, 0 when it has none.
pub open spec fn stake_in(entries: Seq<(u64, u64)>, node: u64) -> u64
    decreases entries.len(),
{
    if entries.len() == 0 {
        0
    } else if entries[0].0 == node {
        entries[0].1
    } else {
        stake_in(entries.skip(1), node)
    }
}

/// An immutable mapping from node identity to stake weight.
#[derive(Clone, Debug)]
pub struct StakeTable {
    /// Node identities with their stake, in the committee's agreed order.
    pub entries: Vec<(u64, u64)>,
    /// The accumulated stake a certificate needs.
    pub threshold: u64,
}

impl StakeTable {
    pub open spec fn stake_spec(&self, node: u64) -> u64 {
        stake_in(self.entries@, node)
    }

    /// The leader of `view`: the committee members take turns in table order.
    pub open spec fn leader_spec(&self, view: u64) -> Option<u64> {
        if self.entries@.len() == 0 {
            None
        } else {
            Some(self.entries@[(view as int) % (self.entries@.len() as int)].0)
        }
    }

    pub fn new(entries: Vec<(u64, u64)>, threshold: u64) -> (r: StakeTable)
        ensures
            r.entries@ == entries@,
            r.threshold == threshold,
    {
        StakeTable { entries, threshold }
    }

    /// The stake weight of `node`, 0 when it is not in the table.
    pub fn stake(&self, node: u64) -> (r: u64)
        ensures
            r == self.stake_spec(node),
    {
        let mut i: usize = 0;
        assert(self.entries@.skip(0) =~= self.entries@);
        while i < self.entries.len()
            invariant
                0 <= i <= self.entries@.len(),
                stake_in(self.entries@, node) == stake_in(self.entries@.skip(i as int), node),
            decreases self.entries@.len() - i,
        {
            let ghost rest = self.entries@.skip(i as int);
            if self.entries[i].0 == node {
                return self.entries[i].1;
            }
            assert(rest.skip(1) =~= self.entries@.skip(i + 1));
            i = i + 1;
        }
        0
    }

    /// Whether `node` holds stake in this table.
    pub fn has_stake(&self, node: u64) -> (r: bool)
        ensures
            r == (self.stake_spec(node) > 0),
    {
        self.stake(node) > 0
    }

    /// The leader of `view`, `None` for an empty table.
    pub fn leader(&self, view: u64) -> (r: Option<u64>)
        ensures
            r == self.leader_spec(view),
    {
        let n = self.entries.len();
        if n == 0 {
            None
        } else {
            let i = (view % (n as u64)) as usize;
            Some(self.entries[i].0)
        }
    }
}

} // verus!
