use hotshot::accumulator::{Vote, VoteKind};
use hotshot::consensus::{ConsensusState, LifecycleEvent};
use hotshot::error::ConsensusError;
use hotshot::membership::StakeTable;

fn table(stakes: &[u64], threshold: u64) -> StakeTable {
    let entries = stakes.iter().enumerate().map(|(i, s)| (i as u64 + 1, *s)).collect();
    StakeTable::new(entries, threshold)
}

/// Node 4 of four equal members; it leads view 11.
fn four_members() -> ConsensusState {
    ConsensusState::new(4, 1000, table(&[25, 25, 25, 25], 75), table(&[25, 25, 25, 25], 75))
}

#[test]
fn stake_table_lookups() {
    let t = StakeTable::new(vec![(10, 5), (20, 0), (30, 7)], 9);
    assert_eq!(t.stake(10), 5);
    assert_eq!(t.stake(30), 7);
    assert_eq!(t.stake(40), 0);
    assert!(t.has_stake(10));
    assert!(!t.has_stake(20));
    assert!(!t.has_stake(99));
    assert_eq!(t.leader(0), Some(10));
    assert_eq!(t.leader(4), Some(20));
    assert_eq!(StakeTable::new(vec![], 1).leader(3), None);
}

#[test]
fn view_changes_are_monotonic() {
    let mut s = four_members();
    let change = s.handle_view_change(3).unwrap();
    assert_eq!(change.old_view, 0);
    assert_eq!(change.new_view, 3);
    assert_eq!(change.timeout_view, 4);
    assert_eq!(change.timeout_ms, 1000);
    assert_eq!(change.views_since_last_decide, Some(3));
    assert_eq!(change.finished, LifecycleEvent::ViewFinished { view_number: 0 });
    assert_eq!(s.cur_view, 3);

    assert_eq!(s.handle_view_change(3), Err(ConsensusError::StaleView));
    assert_eq!(s.handle_view_change(2), Err(ConsensusError::StaleView));
    assert_eq!(s.cur_view, 3);

    let change = s.handle_view_change(8).unwrap();
    assert_eq!(change.old_view, 3);
    assert_eq!(change.finished, LifecycleEvent::ViewFinished { view_number: 3 });
    assert_eq!(s.cur_view, 8);
}

#[test]
fn views_since_decide_only_when_ahead() {
    let mut s = four_members();
    s.last_decided_view = 10;
    assert_eq!(s.handle_view_change(5).unwrap().views_since_last_decide, None);
    assert_eq!(s.handle_view_change(10).unwrap().views_since_last_decide, None);
    assert_eq!(s.handle_view_change(12).unwrap().views_since_last_decide, Some(2));
}

#[test]
fn stale_timeout_is_rejected() {
    let mut s = four_members();
    s.handle_view_change(6).unwrap();
    assert_eq!(s.handle_timeout(5).unwrap_err(), ConsensusError::StaleTimeout);
    assert_eq!(s.handle_timeout(6).unwrap_err(), ConsensusError::StaleTimeout);
}

#[test]
fn timeout_asks_for_a_vote() {
    let mut s = four_members();
    s.handle_view_change(6).unwrap();
    let action = s.handle_timeout(7).unwrap();
    assert_eq!(action.vote_view, 7);
    assert_eq!(
        action.events,
        vec![
            LifecycleEvent::ViewTimeout { view_number: 7 },
            LifecycleEvent::ReplicaViewTimeout { view_number: 7 }
        ]
    );
}

#[test]
fn timeout_off_committee() {
    let mut s = ConsensusState::new(9, 10, table(&[1, 1], 2), table(&[1, 1], 2));
    s.handle_view_change(1).unwrap();
    assert_eq!(s.handle_timeout(2).unwrap_err(), ConsensusError::NotOnCommittee);
}

#[test]
fn three_of_four_votes_certify() {
    let mut s = four_members();
    assert!(s.handle_quorum_vote_recv(&Vote { view: 10, voter: 1 }).unwrap().is_none());
    assert!(s.handle_quorum_vote_recv(&Vote { view: 10, voter: 3 }).unwrap().is_none());
    let cert = s.handle_quorum_vote_recv(&Vote { view: 10, voter: 2 }).unwrap().unwrap();
    assert_eq!(cert.view, 10);
    assert_eq!(cert.kind, VoteKind::Quorum);
    assert_eq!(cert.stake, 75);
    assert_eq!(cert.signers, vec![1, 3, 2]);
    assert!(s.vote_collector.is_none());

    // A late fourth vote starts a new accumulation without error.
    assert!(s.handle_quorum_vote_recv(&Vote { view: 10, voter: 4 }).unwrap().is_none());
    let acc = s.vote_collector.as_ref().unwrap();
    assert_eq!(acc.view, 10);
    assert_eq!(acc.stake, 25);
}

#[test]
fn certificate_needs_the_threshold() {
    // Total stake 100, threshold 67; node 1 leads view 5 + 1 (6 % 4 == 2: third entry).
    let t = StakeTable::new(vec![(1, 30), (2, 36), (3, 1), (4, 33)], 67);
    let mut s = ConsensusState::new(3, 10, t.clone(), t);
    assert!(s.handle_quorum_vote_recv(&Vote { view: 5, voter: 1 }).unwrap().is_none());
    assert!(s.handle_quorum_vote_recv(&Vote { view: 5, voter: 2 }).unwrap().is_none());
    assert_eq!(s.vote_collector.as_ref().unwrap().stake, 66);
    let cert = s.handle_quorum_vote_recv(&Vote { view: 5, voter: 3 }).unwrap().unwrap();
    assert_eq!(cert.stake, 67);
    assert_eq!(cert.view, 5);
    assert!(s.vote_collector.is_none());
}

#[test]
fn newer_view_replaces_accumulator() {
    let mut s = four_members();
    // node 4 leads views 11 and 15 (indices 3)
    assert!(s.handle_quorum_vote_recv(&Vote { view: 10, voter: 1 }).unwrap().is_none());
    assert!(s.handle_quorum_vote_recv(&Vote { view: 14, voter: 2 }).unwrap().is_none());
    let acc = s.vote_collector.as_ref().unwrap();
    assert_eq!(acc.view, 14);
    assert_eq!(acc.stake, 25);
    assert_eq!(acc.signers, vec![2]);
    // an older vote is ignored
    assert!(s.handle_quorum_vote_recv(&Vote { view: 10, voter: 3 }).unwrap().is_none());
    let acc = s.vote_collector.as_ref().unwrap();
    assert_eq!(acc.view, 14);
    assert_eq!(acc.stake, 25);
}

#[test]
fn only_the_next_leader_collects() {
    let mut s = four_members();
    assert_eq!(
        s.handle_quorum_vote_recv(&Vote { view: 9, voter: 1 }).unwrap_err(),
        ConsensusError::NotLeader
    );
    assert_eq!(
        s.handle_quorum_vote_recv(&Vote { view: u64::MAX, voter: 1 }).unwrap_err(),
        ConsensusError::NotLeader
    );
    assert!(s.vote_collector.is_none());
}

#[test]
fn votes_without_stake_are_ignored() {
    let mut s = four_members();
    assert!(matches!(s.handle_quorum_vote_recv(&Vote { view: 10, voter: 77 }), Ok(None)));
    assert!(s.vote_collector.is_none());
    assert!(s.handle_quorum_vote_recv(&Vote { view: 10, voter: 1 }).unwrap().is_none());
    assert!(matches!(s.handle_quorum_vote_recv(&Vote { view: 10, voter: 77 }), Ok(None)));
    let acc = s.vote_collector.as_ref().unwrap();
    assert_eq!(acc.stake, 25);
    assert_eq!(acc.signers, vec![1]);
}

#[test]
fn timeout_votes_weighed_by_timeout_committee() {
    // The timeout committee gives node 1 all the stake it needs; the quorum one does not.
    let quorum = table(&[1, 1, 1, 1], 3);
    let timeout = StakeTable::new(vec![(1, 50), (2, 10), (3, 10), (4, 10)], 50);
    let mut s = ConsensusState::new(4, 10, quorum, timeout);
    let cert = s.handle_timeout_vote_recv(&Vote { view: 10, voter: 1 }).unwrap().unwrap();
    assert_eq!(cert.stake, 50);
    assert_eq!(cert.kind, VoteKind::Timeout);
    assert!(s.handle_timeout_vote_recv(&Vote { view: 14, voter: 2 }).unwrap().is_none());
    assert_eq!(s.timeout_vote_collector.as_ref().unwrap().stake, 10);
}

#[test]
fn timeout_votes_certify() {
    let mut s = four_members();
    assert!(s.handle_timeout_vote_recv(&Vote { view: 10, voter: 1 }).unwrap().is_none());
    assert!(s.handle_timeout_vote_recv(&Vote { view: 10, voter: 2 }).unwrap().is_none());
    assert!(s.vote_collector.is_none());
    let cert = s.handle_timeout_vote_recv(&Vote { view: 10, voter: 3 }).unwrap().unwrap();
    assert_eq!(cert.kind, VoteKind::Timeout);
    assert_eq!(cert.view, 10);
    assert!(s.timeout_vote_collector.is_none());
}
