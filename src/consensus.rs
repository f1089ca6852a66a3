//! The view state machine and the leader's vote handling of one node.
//!
//! Each handler decides; what it decides to do outside (arm or cancel a
//! timer, publish an event, sign a vote, update a metric) is returned as a
//! value for the surrounding task to carry out.
use vstd::prelude::*;

use crate::accumulator::{
    accumulate_vote, collected, completes, core_of, next_core, Certificate, Vote, VoteAccumulator,
    VoteKind,
};
use crate::error::ConsensusError;
use crate::membership::StakeTable;

verus! {

/// Externally visible view lifecycle events.
#[derive(Clone, Copy, Debug, PartialEq, Eq)]
pub enum LifecycleEvent {
    ViewFinished { view_number: u64 },
    ViewTimeout { view_number: u64 },
    ReplicaViewTimeout { view_number: u64 },
}

/// What a successful view change asks of the surrounding task: cancel the
/// outstanding timeout timer, arm a new one that announces a timeout for
/// `timeout_view` after `timeout_ms` milliseconds, update the metrics and
/// publish `finished`.
#[derive(Clone, Copy, Debug, PartialEq, Eq)]
pub struct ViewChange {
    pub old_view: u64,
    pub new_view: u64,
    pub timeout_view: u64,
    pub timeout_ms: u64,
    /// The views since the last decide, when the current view is past it.
    pub views_since_last_decide: Option<u64>,
    pub finished: LifecycleEvent,
}

/// What a timeout asks of the surrounding task: sign and send a timeout vote
/// for `vote_view`, publish `events` in order, and count the timeout.
#[derive(Clone, Debug)]
pub struct TimeoutAction {
    pub vote_view: u64,
    pub events: Vec<LifecycleEvent>,
}

/// Per-node consensus state.
#[derive(Clone, Debug)]
pub struct ConsensusState {
    /// This node's identity.
    pub id: u64,
    pub cur_view: u64,
    pub last_decided_view: u64,
    /// Timeout duration in milliseconds.
    pub timeout: u64,
    pub quorum_membership: StakeTable,
    pub timeout_membership: StakeTable,
    pub vote_collector: Option<VoteAccumulator>,
    pub timeout_vote_collector: Option<VoteAccumulator>,
}

/// The current view after a view change to `new_view` is requested.
pub open spec fn advanced_view(cur: u64, new_view: u64) -> u64 {
    if new_view > cur {
        new_view
    } else {
        cur
    }
}

/// The current view after a sequence of requested view changes.
pub open spec fn view_after(cur: u64, requests: Seq<u64>) -> u64
    decreases requests.len(),
{
    if requests.len() == 0 {
        cur
    } else {
        advanced_view(view_after(cur, requests.drop_last()), requests.last())
    }
}

/// Whether this node leads the view after `view` under `membership`.
pub open spec fn leads_next(membership: StakeTable, id: u64, view: u64) -> bool {
    view < u64::MAX && membership.leader_spec((view + 1) as u64) == Some(id)
}

/// Monotonic view: along any sequence of requested view changes the current
/// view never decreases.
pub proof fn lemma_view_monotonic(cur: u64, requests: Seq<u64>, i: int, j: int)
    requires
        0 <= i <= j <= requests.len(),
    ensures
        cur <= view_after(cur, requests.take(i)),
        view_after(cur, requests.take(i)) <= view_after(cur, requests.take(j)),
    decreases j,
{
    if j > 0 {
        if i < j {
            lemma_view_monotonic(cur, requests, i, j - 1);
            assert(requests.take(j).drop_last() =~= requests.take(j - 1));
        } else {
            lemma_view_monotonic(cur, requests, i - 1, j - 1);
            assert(requests.take(i).drop_last() =~= requests.take(i - 1));
        }
    } else {
        assert(requests.take(0).len() == 0);
    }
}

impl ConsensusState {
    pub fn new(
        id: u64,
        timeout: u64,
        quorum_membership: StakeTable,
        timeout_membership: StakeTable,
    ) -> (r: ConsensusState)
        ensures
            r.id == id,
            r.cur_view == 0,
            r.last_decided_view == 0,
            r.timeout == timeout,
            r.quorum_membership == quorum_membership,
            r.timeout_membership == timeout_membership,
            r.vote_collector is None,
            r.timeout_vote_collector is None,
    {
        ConsensusState {
            id,
            cur_view: 0,
            last_decided_view: 0,
            timeout,
            quorum_membership,
            timeout_membership,
            vote_collector: None,
            timeout_vote_collector: None,
        }
    }

    /// Handles a view change: moves to `new_view_number` when it is larger
    /// than the current view, else fails with `StaleView` and changes nothing.
    pub fn handle_view_change(&mut self, new_view_number: u64) -> (r: Result<ViewChange, ConsensusError>)
        requires
            new_view_number < u64::MAX,
        ensures
            final(self).cur_view == advanced_view(old(self).cur_view, new_view_number),
            final(self).cur_view >= old(self).cur_view,
            (r is Ok) == (new_view_number > old(self).cur_view),
            new_view_number <= old(self).cur_view ==> r == Err::<ViewChange, ConsensusError>(
                ConsensusError::StaleView,
            ) && *final(self) == *old(self),
            new_view_number > old(self).cur_view ==> r == Ok::<ViewChange, ConsensusError>(
                (ViewChange {
                    old_view: old(self).cur_view,
                    new_view: new_view_number,
                    timeout_view: (new_view_number + 1) as u64,
                    timeout_ms: old(self).timeout,
                    views_since_last_decide: if new_view_number > old(self).last_decided_view {
                        Some((new_view_number - old(self).last_decided_view) as u64)
                    } else {
                        None
                    },
                    finished: LifecycleEvent::ViewFinished { view_number: old(self).cur_view },
                }),
            ) && *final(self) == (ConsensusState { cur_view: new_view_number, ..*old(self) }),
    {
        if new_view_number <= self.cur_view {
            return Err(ConsensusError::StaleView);
        }
        let old_view_number = self.cur_view;
        self.cur_view = new_view_number;
        let views_since_last_decide = if self.cur_view > self.last_decided_view {
            Some(self.cur_view - self.last_decided_view)
        } else {
            None
        };
        Ok(ViewChange {
            old_view: old_view_number,
            new_view: new_view_number,
            timeout_view: new_view_number + 1,
            timeout_ms: self.timeout,
            views_since_last_decide,
            finished: LifecycleEvent::ViewFinished { view_number: old_view_number },
        })
    }

    /// Handles a received quorum vote: fails with `NotLeader` unless this
    /// node leads the view after the vote's view under the quorum
    /// membership. A vote from a voter without stake in that membership is
    /// ignored. Any other vote is folded into the quorum vote slot, weighed by
    /// the quorum membership's stake and threshold, and the certificate it
    /// completes, if any, is returned.
    pub fn handle_quorum_vote_recv(&mut self, vote: &Vote) -> (r: Result<Option<Certificate>, ConsensusError>)
        ensures
            (r is Ok) == leads_next(old(self).quorum_membership, old(self).id, vote.view),
            !leads_next(old(self).quorum_membership, old(self).id, vote.view) ==> r == Err::<
                Option<Certificate>,
                ConsensusError,
            >(ConsensusError::NotLeader) && *final(self) == *old(self),
            leads_next(old(self).quorum_membership, old(self).id, vote.view)
                && old(self).quorum_membership.stake_spec(vote.voter) == 0 ==> r == Ok::<
                Option<Certificate>,
                ConsensusError,
            >(None) && *final(self) == *old(self),
            leads_next(old(self).quorum_membership, old(self).id, vote.view)
                && old(self).quorum_membership.stake_spec(vote.voter) > 0 ==> {
                let weight = old(self).quorum_membership.stake_spec(vote.voter);
                let threshold = old(self).quorum_membership.threshold;
                let before = core_of(old(self).vote_collector);
                &&& r matches Ok(c)
                &&& core_of(final(self).vote_collector) == next_core(before, vote.view, weight, threshold)
                &&& (c is Some) == completes(before, vote.view, weight, threshold)
                &&& (c matches Some(cert) ==> cert.view == vote.view && cert.kind == VoteKind::Quorum
                    && cert.stake == collected(before, vote.view, weight))
                &&& *final(self) == (ConsensusState { vote_collector: final(self).vote_collector, ..*old(self) })
            },
    {
        if vote.view == u64::MAX {
            return Err(ConsensusError::NotLeader);
        }
        match self.quorum_membership.leader(vote.view + 1) {
            Some(leader) => {
                if leader != self.id {
                    return Err(ConsensusError::NotLeader);
                }
            },
            None => {
                return Err(ConsensusError::NotLeader);
            },
        }
        let weight = self.quorum_membership.stake(vote.voter);
        if weight == 0 {
            return Ok(None);
        }
        let threshold = self.quorum_membership.threshold;
        Ok(accumulate_vote(&mut self.vote_collector, VoteKind::Quorum, vote, weight, threshold))
    }

    /// Handles a received timeout vote: fails with `NotLeader` unless this
    /// node leads the view after the vote's view under the timeout
    /// membership. A vote from a voter without stake in that membership is
    /// ignored. Any other vote is folded into the timeout vote slot, weighed by
    /// the timeout membership's stake and threshold, and the certificate it
    /// completes, if any, is returned.
    pub fn handle_timeout_vote_recv(&mut self, vote: &Vote) -> (r: Result<Option<Certificate>, ConsensusError>)
        ensures
            (r is Ok) == leads_next(old(self).timeout_membership, old(self).id, vote.view),
            !leads_next(old(self).timeout_membership, old(self).id, vote.view) ==> r == Err::<
                Option<Certificate>,
                ConsensusError,
            >(ConsensusError::NotLeader) && *final(self) == *old(self),
            leads_next(old(self).timeout_membership, old(self).id, vote.view)
                && old(self).timeout_membership.stake_spec(vote.voter) == 0 ==> r == Ok::<
                Option<Certificate>,
                ConsensusError,
            >(None) && *final(self) == *old(self),
            leads_next(old(self).timeout_membership, old(self).id, vote.view)
                && old(self).timeout_membership.stake_spec(vote.voter) > 0 ==> {
                let weight = old(self).timeout_membership.stake_spec(vote.voter);
                let threshold = old(self).timeout_membership.threshold;
                let before = core_of(old(self).timeout_vote_collector);
                &&& r matches Ok(c)
                &&& core_of(final(self).timeout_vote_collector) == next_core(before, vote.view, weight, threshold)
                &&& (c is Some) == completes(before, vote.view, weight, threshold)
                &&& (c matches Some(cert) ==> cert.view == vote.view && cert.kind == VoteKind::Timeout
                    && cert.stake == collected(before, vote.view, weight))
                &&& *final(self) == (ConsensusState { timeout_vote_collector: final(self).timeout_vote_collector, ..*old(self) })
            },
    {
        if vote.view == u64::MAX {
            return Err(ConsensusError::NotLeader);
        }
        match self.timeout_membership.leader(vote.view + 1) {
            Some(leader) => {
                if leader != self.id {
                    return Err(ConsensusError::NotLeader);
                }
            },
            None => {
                return Err(ConsensusError::NotLeader);
            },
        }
        let weight = self.timeout_membership.stake(vote.voter);
        if weight == 0 {
            return Ok(None);
        }
        let threshold = self.timeout_membership.threshold;
        Ok(accumulate_vote(&mut self.timeout_vote_collector, VoteKind::Timeout, vote, weight, threshold))
    }

    /// Handles a timeout for `view_number`: fails with `StaleTimeout` when
    /// the current view has reached it, with `NotOnCommittee` when this node
    /// holds no stake in the timeout committee; else asks for a timeout vote.
    pub fn handle_timeout(&self, view_number: u64) -> (r: Result<TimeoutAction, ConsensusError>)
        ensures
            self.cur_view >= view_number ==> r == Err::<TimeoutAction, ConsensusError>(
                ConsensusError::StaleTimeout,
            ),
            self.cur_view < view_number && self.timeout_membership.stake_spec(self.id) == 0 ==> r
                == Err::<TimeoutAction, ConsensusError>(ConsensusError::NotOnCommittee),
            self.cur_view < view_number && self.timeout_membership.stake_spec(self.id) > 0 ==> (r matches Ok(a)
                && a.vote_view == view_number && a.events@ == seq![
                LifecycleEvent::ViewTimeout { view_number },
                LifecycleEvent::ReplicaViewTimeout { view_number },
            ]),
    {
        if self.cur_view >= view_number {
            return Err(ConsensusError::StaleTimeout);
        }
        if !self.timeout_membership.has_stake(self.id) {
            return Err(ConsensusError::NotOnCommittee);
        }
        let mut events: Vec<LifecycleEvent> = Vec::new();
        events.push(LifecycleEvent::ViewTimeout { view_number });
        events.push(LifecycleEvent::ReplicaViewTimeout { view_number });
        proof {
            assert(events@ =~= seq![
                LifecycleEvent::ViewTimeout { view_number },
                LifecycleEvent::ReplicaViewTimeout { view_number },
            ]);
        }
        Ok(TimeoutAction { vote_view: view_number, events })
    }
}

} // verus!
