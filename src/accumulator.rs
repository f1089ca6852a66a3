//! Accumulation of stake-weighted votes for one view into a certificate.
//!
//! A slot holds at most one live accumulator. A vote for a view newer than
//! the live one (or for an empty slot) replaces it with a fresh accumulator;
//! a vote for the same view is folded in; a vote for an older view is
//! ignored. As soon as the accumulated stake reaches the threshold the
//! accumulator yields a certificate and the slot is emptied.
use vstd::prelude::*;

verus! {

/// The kinds of votes that are accumulated into certificates.
#[derive(Clone, Copy, Debug, PartialEq, Eq)]
pub enum VoteKind {
    Quorum,
    Timeout,
}

/// A signed vote, reduced to what the accumulator reads.
#[derive(Clone, Copy, Debug, PartialEq, Eq)]
pub struct Vote {
    /// The view voted in.
    pub view: u64,
    /// The identity of the voter.
    pub voter: u64,
}

/// The accumulation in progress for one view.
#[derive(Clone, Debug)]
pub struct VoteAccumulator {
    /// The view whose votes are collected.
    pub view: u64,
    /// The stake collected so far (saturating at `u64::MAX`).
    pub stake: u64,
    /// The voters whose votes were folded in, in arrival order.
    pub signers: Vec<u64>,
}

/// A finalized aggregation of votes whose stake reached the threshold.
#[derive(Clone, Debug)]
pub struct Certificate {
    pub view: u64,
    pub kind: VoteKind,
    pub stake: u64,
    pub signers: Vec<u64>,
}

/// `a + b`, saturating at `u64::MAX`.
pub open spec fn sat_add(a: u64, b: u64) -> u64 {
    if a + b > u64::MAX {
        u64::MAX
    } else {
        (a + b) as u64
    }
}

/// What of a slot the accumulation rules read: the bound view and the stake.
pub open spec fn core_of(slot: Option<VoteAccumulator>) -> Option<(u64, u64)> {
    match slot {
        Some(a) => Some((a.view, a.stake)),
        None => None,
    }
}

/// A vote for a view older than the live accumulator's is ignored.
pub open spec fn is_stale(core: Option<(u64, u64)>, view: u64) -> bool {
    core matches Some((v, _)) && view < v
}

/// The stake collected once a non-stale vote of `weight` is counted.
pub open spec fn collected(core: Option<(u64, u64)>, view: u64, weight: u64) -> u64 {
    match core {
        Some((v, s)) => if v == view {
            sat_add(s, weight)
        } else {
            weight
        },
        None => weight,
    }
}

/// Whether counting the vote completes a certificate.
pub open spec fn completes(core: Option<(u64, u64)>, view: u64, weight: u64, threshold: u64) -> bool {
    !is_stale(core, view) && collected(core, view, weight) >= threshold
}

/// The slot after the vote.
pub open spec fn next_core(core: Option<(u64, u64)>, view: u64, weight: u64, threshold: u64) -> Option<
    (u64, u64),
> {
    if is_stale(core, view) {
        core
    } else if completes(core, view, weight, threshold) {
        None
    } else {
        Some((view, collected(core, view, weight)))
    }
}

/// The signers carried over to the vote's accumulation.
pub open spec fn prior_signers(slot: Option<VoteAccumulator>, view: u64) -> Seq<u64> {
    match slot {
        Some(a) => if a.view == view {
            a.signers@
        } else {
            Seq::empty()
        },
        None => Seq::empty(),
    }
}

/// Folds a vote of stake `weight` into the slot and returns the certificate
/// it completes, if any.
pub fn accumulate_vote(
    slot: &mut Option<VoteAccumulator>,
    kind: VoteKind,
    vote: &Vote,
    weight: u64,
    threshold: u64,
) -> (r: Option<Certificate>)
    ensures
        core_of(*final(slot)) == next_core(core_of(*old(slot)), vote.view, weight, threshold),
        (r is Some) == completes(core_of(*old(slot)), vote.view, weight, threshold),
        is_stale(core_of(*old(slot)), vote.view) ==> *final(slot) == *old(slot),
        r matches Some(c) ==> c.view == vote.view && c.kind == kind && c.stake == collected(
            core_of(*old(slot)),
            vote.view,
            weight,
        ) && c.signers@ == prior_signers(*old(slot), vote.view).push(vote.voter),
        !is_stale(core_of(*old(slot)), vote.view) ==> (*final(slot) matches Some(a) ==> a.signers@
            == prior_signers(*old(slot), vote.view).push(vote.voter)),
{
    let fold = match slot {
        Some(acc) => {
            if vote.view < acc.view {
                return None;
            }
            vote.view == acc.view
        },
        None => false,
    };
    let mut acc = if fold {
        match slot.take() {
            Some(a) => a,
            None => VoteAccumulator { view: vote.view, stake: 0, signers: Vec::new() },
        }
    } else {
        VoteAccumulator { view: vote.view, stake: 0, signers: Vec::new() }
    };
    acc.stake = acc.stake.saturating_add(weight);
    acc.signers.push(vote.voter);
    if acc.stake >= threshold {
        *slot = None;
        Some(Certificate { view: acc.view, kind, stake: acc.stake, signers: acc.signers })
    } else {
        *slot = Some(acc);
        None
    }
}

/// The slot's core after a run of votes, each given as `(view, weight)`.
pub open spec fn run_votes(core: Option<(u64, u64)>, votes: Seq<(u64, u64)>, threshold: u64) -> Option<
    (u64, u64),
>
    decreases votes.len(),
{
    if votes.len() == 0 {
        core
    } else {
        next_core(run_votes(core, votes.drop_last(), threshold), votes.last().0, votes.last().1, threshold)
    }
}

/// How many certificates a run of votes yields.
pub open spec fn certificates_in_run(core: Option<(u64, u64)>, votes: Seq<(u64, u64)>, threshold: u64) -> nat
    decreases votes.len(),
{
    if votes.len() == 0 {
        0
    } else {
        certificates_in_run(core, votes.drop_last(), threshold) + if completes(
            run_votes(core, votes.drop_last(), threshold),
            votes.last().0,
            votes.last().1,
            threshold,
        ) {
            1nat
        } else {
            0nat
        }
    }
}

/// The largest view among the votes (0 for none).
pub open spec fn max_view(votes: Seq<(u64, u64)>) -> u64
    decreases votes.len(),
{
    if votes.len() == 0 {
        0
    } else if votes.len() == 1 {
        votes[0].0
    } else if votes.last().0 > max_view(votes.drop_last()) {
        votes.last().0
    } else {
        max_view(votes.drop_last())
    }
}

/// The total weight of the votes.
pub open spec fn weight_sum(votes: Seq<(u64, u64)>) -> nat
    decreases votes.len(),
{
    if votes.len() == 0 {
        0
    } else {
        weight_sum(votes.drop_last()) + votes.last().1 as nat
    }
}

/// At most one live accumulator, bound to the newest view: after a run of
/// votes from an empty slot that yields no certificate, the slot holds one
/// accumulator and it is bound to the largest view among the votes.
pub proof fn lemma_live_accumulator_at_max_view(votes: Seq<(u64, u64)>, threshold: u64)
    requires
        votes.len() > 0,
        certificates_in_run(None, votes, threshold) == 0,
    ensures
        run_votes(None, votes, threshold) matches Some((v, _)) && v == max_view(votes),
    decreases votes.len(),
{
    let p = votes.drop_last();
    if votes.len() > 1 {
        lemma_live_accumulator_at_max_view(p, threshold);
    } else {
        assert(run_votes(None, p, threshold) == None::<(u64, u64)>);
    }
}

/// Where the votes that the live accumulator may hold begin: just after the
/// last vote that completed a certificate, or at the start.
pub open spec fn last_reset(votes: Seq<(u64, u64)>, threshold: u64) -> int
    decreases votes.len(),
{
    if votes.len() == 0 {
        0
    } else if completes(
        run_votes(None, votes.drop_last(), threshold),
        votes.last().0,
        votes.last().1,
        threshold,
    ) {
        votes.len() as int
    } else {
        last_reset(votes.drop_last(), threshold)
    }
}

/// At most one live accumulator, bound to the newest view since the last
/// certificate: after any run of votes from an empty slot, the slot is empty
/// exactly when no vote came after the last certificate, and otherwise holds
/// one accumulator bound to the largest view among the votes since then.
pub proof fn lemma_live_accumulator_since_last_certificate(votes: Seq<(u64, u64)>, threshold: u64)
    ensures
        0 <= last_reset(votes, threshold) <= votes.len(),
        run_votes(None, votes, threshold) is None <==> last_reset(votes, threshold) == votes.len(),
        run_votes(None, votes, threshold) matches Some((v, _)) ==> v == max_view(
            votes.skip(last_reset(votes, threshold)),
        ),
    decreases votes.len(),
{
    if votes.len() > 0 {
        let p = votes.drop_last();
        lemma_live_accumulator_since_last_certificate(p, threshold);
        let r = last_reset(p, threshold);
        assert(votes.skip(r).drop_last() =~= p.skip(r));
        if r == p.len() {
            assert(votes.skip(r).len() == 1);
        }
        if r < p.len() {
            assert(votes.skip(r).last() == votes.last());
        }
    }
}

/// The accumulation below the threshold: votes of one view whose weights sum
/// to less than the threshold yield no certificate and leave one accumulator
/// holding their sum.
pub proof fn lemma_run_below_threshold(votes: Seq<(u64, u64)>, view: u64, threshold: u64)
    requires
        forall|i: int| 0 <= i < votes.len() ==> (#[trigger] votes[i]).0 == view,
        weight_sum(votes) < threshold,
    ensures
        certificates_in_run(None, votes, threshold) == 0,
        votes.len() == 0 ==> run_votes(None, votes, threshold) == None::<(u64, u64)>,
        votes.len() > 0 ==> run_votes(None, votes, threshold) == Some((view, weight_sum(votes) as u64)),
    decreases votes.len(),
{
    if votes.len() > 0 {
        let p = votes.drop_last();
        assert forall|i: int| 0 <= i < p.len() implies (#[trigger] p[i]).0 == view by {
            assert(p[i] == votes[i]);
        }
        lemma_run_below_threshold(p, view, threshold);
        assert(votes.last() == votes[votes.len() - 1]);
    }
}

/// Certificate threshold correctness: for votes of one view, arriving at an
/// empty slot, whose weights before the last one sum to less than the
/// threshold, the run yields a certificate exactly when the total weight
/// reaches the threshold, and that certificate is the only one.
pub proof fn lemma_certificate_at_threshold(votes: Seq<(u64, u64)>, view: u64, threshold: u64)
    requires
        votes.len() > 0,
        forall|i: int| 0 <= i < votes.len() ==> (#[trigger] votes[i]).0 == view,
        weight_sum(votes.drop_last()) < threshold,
    ensures
        certificates_in_run(None, votes, threshold) == (if weight_sum(votes) >= threshold {
            1nat
        } else {
            0nat
        }),
        weight_sum(votes) >= threshold ==> run_votes(None, votes, threshold) == None::<(u64, u64)>,
{
    let p = votes.drop_last();
    assert forall|i: int| 0 <= i < p.len() implies (#[trigger] p[i]).0 == view by {
        assert(p[i] == votes[i]);
    }
    lemma_run_below_threshold(p, view, threshold);
    assert(votes.last() == votes[votes.len() - 1]);
}

} // verus!
