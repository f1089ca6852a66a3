use hotshot::accumulator::Vote;
use hotshot::network::{
    CommitteeConsensusMessage, GeneralConsensusMessage, HotShotEvent, Message, MessageKind,
    NetworkAction, NetworkTaskState,
};

#[test]
fn inbound_messages_become_events() {
    let state = NetworkTaskState::new(0);
    let vote = Vote { view: 3, voter: 8 };
    let m = Message { sender: 5, kind: MessageKind::General(GeneralConsensusMessage::Proposal(vec![1, 2])) };
    assert_eq!(state.handle_message(m), Some(HotShotEvent::QuorumProposalRecv(vec![1, 2], 5)));
    let m = Message { sender: 5, kind: MessageKind::General(GeneralConsensusMessage::Vote(vote)) };
    assert_eq!(state.handle_message(m), Some(HotShotEvent::QuorumVoteRecv(vote)));
    let m = Message { sender: 5, kind: MessageKind::Committee(CommitteeConsensusMessage::DAProposal(vec![4])) };
    assert_eq!(state.handle_message(m), Some(HotShotEvent::DAProposalRecv(vec![4], 5)));
    let m = Message { sender: 5, kind: MessageKind::Data(vec![0]) };
    assert_eq!(state.handle_message(m), None);
}

#[test]
fn outbound_events_become_messages() {
    let mut state = NetworkTaskState::new(0);
    let vote = Vote { view: 3, voter: 8 };
    assert_eq!(
        state.handle_event(HotShotEvent::QuorumVoteSend(vote)),
        NetworkAction::Broadcast(Message {
            sender: 8,
            kind: MessageKind::General(GeneralConsensusMessage::Vote(vote))
        })
    );
    assert_eq!(
        state.handle_event(HotShotEvent::DAProposalSend(vec![7], 2)),
        NetworkAction::Broadcast(Message {
            sender: 2,
            kind: MessageKind::Committee(CommitteeConsensusMessage::DAProposal(vec![7]))
        })
    );
    assert_eq!(state.handle_event(HotShotEvent::ViewChange(12)), NetworkAction::Nothing);
    assert_eq!(state.view, 12);
    assert_eq!(state.handle_event(HotShotEvent::Timeout(4)), NetworkAction::Nothing);
    assert_eq!(state.view, 12);
    assert_eq!(state.handle_event(HotShotEvent::Shutdown), NetworkAction::ShutDown);
}

#[test]
fn filter_keeps_network_events() {
    let vote = Vote { view: 1, voter: 1 };
    assert!(NetworkTaskState::filter(&HotShotEvent::QuorumVoteSend(vote)));
    assert!(NetworkTaskState::filter(&HotShotEvent::TimeoutVoteSend(vote)));
    assert!(NetworkTaskState::filter(&HotShotEvent::Shutdown));
    assert!(NetworkTaskState::filter(&HotShotEvent::ViewChange(2)));
    assert!(!NetworkTaskState::filter(&HotShotEvent::QuorumVoteRecv(vote)));
    assert!(!NetworkTaskState::filter(&HotShotEvent::Timeout(2)));
}
