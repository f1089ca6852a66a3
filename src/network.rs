//! Conversion between network messages and consensus events.
//!
//! Inbound messages become events one for one; the outbound events that the
//! network task serves become messages to broadcast. Proposal and
//! certificate payloads travel as their encoded bytes.
use vstd::prelude::*;

use crate::accumulator::Vote;

verus! {

/// A message of the general consensus protocol.
#[derive(Clone, Debug, PartialEq, Eq)]
pub enum GeneralConsensusMessage {
    Proposal(Vec<u8>),
    Vote(Vote),
    TimeoutVote(Vote),
    ViewSyncVote(Vote),
    ViewSyncCertificate(Vec<u8>),
}

/// A message of the data-availability committee.
#[derive(Clone, Debug, PartialEq, Eq)]
pub enum CommitteeConsensusMessage {
    DAProposal(Vec<u8>),
    DAVote(Vote),
    DACertificate(Vec<u8>),
}

/// What a message carries.
#[derive(Clone, Debug, PartialEq, Eq)]
pub enum MessageKind {
    General(GeneralConsensusMessage),
    Committee(CommitteeConsensusMessage),
    /// Application data, which the consensus network task does not handle.
    Data(Vec<u8>),
}

/// A message with the identity of its sender.
#[derive(Clone, Debug, PartialEq, Eq)]
pub struct Message {
    pub sender: u64,
    pub kind: MessageKind,
}

/// Protocol events on the event bus that the network task reads or writes.
#[derive(Clone, Debug, PartialEq, Eq)]
pub enum HotShotEvent {
    QuorumProposalRecv(Vec<u8>, u64),
    QuorumVoteRecv(Vote),
    TimeoutVoteRecv(Vote),
    ViewSyncVoteRecv(Vote),
    ViewSyncCertificateRecv(Vec<u8>),
    DAProposalRecv(Vec<u8>, u64),
    DAVoteRecv(Vote),
    DACRecv(Vec<u8>),
    QuorumProposalSend(Vec<u8>, u64),
    QuorumVoteSend(Vote),
    TimeoutVoteSend(Vote),
    DAProposalSend(Vec<u8>, u64),
    DAVoteSend(Vote),
    ViewSyncVoteSend(Vote),
    ViewSyncCertificateSend(Vec<u8>, u64),
    ViewChange(u64),
    Timeout(u64),
    Shutdown,
}

/// What the network task does with an event.
#[derive(Clone, Debug, PartialEq, Eq)]
pub enum NetworkAction {
    /// Broadcast the message to the committee.
    Broadcast(Message),
    /// Shut the channel down; the task is complete.
    ShutDown,
    /// Nothing to send.
    Nothing,
}

/// The event that an inbound message becomes, `None` for application data.
pub open spec fn message_event(message: Message) -> Option<HotShotEvent> {
    let sender = message.sender;
    match message.kind {
        MessageKind::General(g) => match g {
            GeneralConsensusMessage::Proposal(p) => Some(HotShotEvent::QuorumProposalRecv(p, sender)),
            GeneralConsensusMessage::Vote(v) => Some(HotShotEvent::QuorumVoteRecv(v)),
            GeneralConsensusMessage::TimeoutVote(v) => Some(HotShotEvent::TimeoutVoteRecv(v)),
            GeneralConsensusMessage::ViewSyncVote(v) => Some(HotShotEvent::ViewSyncVoteRecv(v)),
            GeneralConsensusMessage::ViewSyncCertificate(c) => Some(
                HotShotEvent::ViewSyncCertificateRecv(c),
            ),
        },
        MessageKind::Committee(c) => match c {
            CommitteeConsensusMessage::DAProposal(p) => Some(HotShotEvent::DAProposalRecv(p, sender)),
            CommitteeConsensusMessage::DAVote(v) => Some(HotShotEvent::DAVoteRecv(v)),
            CommitteeConsensusMessage::DACertificate(c) => Some(HotShotEvent::DACRecv(c)),
        },
        MessageKind::Data(_) => None,
    }
}

/// The message that an outbound event becomes, with the sender it names
/// (the voter, for a vote).
pub open spec fn event_message(event: HotShotEvent) -> Option<Message> {
    match event {
        HotShotEvent::QuorumProposalSend(p, s) => Some(
            Message { sender: s, kind: MessageKind::General(GeneralConsensusMessage::Proposal(p)) },
        ),
        HotShotEvent::QuorumVoteSend(v) => Some(
            Message { sender: v.voter, kind: MessageKind::General(GeneralConsensusMessage::Vote(v)) },
        ),
        HotShotEvent::TimeoutVoteSend(v) => Some(
            Message {
                sender: v.voter,
                kind: MessageKind::General(GeneralConsensusMessage::TimeoutVote(v)),
            },
        ),
        HotShotEvent::DAProposalSend(p, s) => Some(
            Message {
                sender: s,
                kind: MessageKind::Committee(CommitteeConsensusMessage::DAProposal(p)),
            },
        ),
        HotShotEvent::DAVoteSend(v) => Some(
            Message {
                sender: v.voter,
                kind: MessageKind::Committee(CommitteeConsensusMessage::DAVote(v)),
            },
        ),
        HotShotEvent::ViewSyncCertificateSend(c, s) => Some(
            Message {
                sender: s,
                kind: MessageKind::General(GeneralConsensusMessage::ViewSyncCertificate(c)),
            },
        ),
        HotShotEvent::ViewSyncVoteSend(v) => Some(
            Message {
                sender: v.voter,
                kind: MessageKind::General(GeneralConsensusMessage::ViewSyncVote(v)),
            },
        ),
        _ => None,
    }
}

/// Whether the network task handles the event.
pub open spec fn is_network_event(event: HotShotEvent) -> bool {
    event_message(event) is Some || event is ViewChange || event is Shutdown
}

/// The network task's own state: the view it last heard of.
#[derive(Clone, Copy, Debug, PartialEq, Eq)]
pub struct NetworkTaskState {
    pub view: u64,
}

impl NetworkTaskState {
    pub fn new(view: u64) -> (r: NetworkTaskState)
        ensures
            r.view == view,
    {
        NetworkTaskState { view }
    }

    /// Handles an inbound message: the event to publish, if any.
    pub fn handle_message(&self, message: Message) -> (r: Option<HotShotEvent>)
        ensures
            r == message_event(message),
    {
        let sender = message.sender;
        match message.kind {
            MessageKind::General(g) => match g {
                GeneralConsensusMessage::Proposal(p) => Some(HotShotEvent::QuorumProposalRecv(p, sender)),
                GeneralConsensusMessage::Vote(v) => Some(HotShotEvent::QuorumVoteRecv(v)),
                GeneralConsensusMessage::TimeoutVote(v) => Some(HotShotEvent::TimeoutVoteRecv(v)),
                GeneralConsensusMessage::ViewSyncVote(v) => Some(HotShotEvent::ViewSyncVoteRecv(v)),
                GeneralConsensusMessage::ViewSyncCertificate(c) => Some(
                    HotShotEvent::ViewSyncCertificateRecv(c),
                ),
            },
            MessageKind::Committee(c) => match c {
                CommitteeConsensusMessage::DAProposal(p) => Some(HotShotEvent::DAProposalRecv(p, sender)),
                CommitteeConsensusMessage::DAVote(v) => Some(HotShotEvent::DAVoteRecv(v)),
                CommitteeConsensusMessage::DACertificate(c) => Some(HotShotEvent::DACRecv(c)),
            },
            MessageKind::Data(_) => None,
        }
    }

    /// Handles an outbound event: a message to broadcast, a shutdown, or
    /// nothing; a view change only records the new view.
    pub fn handle_event(&mut self, event: HotShotEvent) -> (r: NetworkAction)
        ensures
            final(self).view == (if let HotShotEvent::ViewChange(v) = event {
                v
            } else {
                old(self).view
            }),
            event is Shutdown ==> r == NetworkAction::ShutDown,
            !(event is Shutdown) ==> r == (match event_message(event) {
                Some(m) => NetworkAction::Broadcast(m),
                None => NetworkAction::Nothing,
            }),
    {
        let message = match event {
            HotShotEvent::QuorumProposalSend(p, s) => Message {
                sender: s,
                kind: MessageKind::General(GeneralConsensusMessage::Proposal(p)),
            },
            HotShotEvent::QuorumVoteSend(v) => Message {
                sender: v.voter,
                kind: MessageKind::General(GeneralConsensusMessage::Vote(v)),
            },
            HotShotEvent::TimeoutVoteSend(v) => Message {
                sender: v.voter,
                kind: MessageKind::General(GeneralConsensusMessage::TimeoutVote(v)),
            },
            HotShotEvent::DAProposalSend(p, s) => Message {
                sender: s,
                kind: MessageKind::Committee(CommitteeConsensusMessage::DAProposal(p)),
            },
            HotShotEvent::DAVoteSend(v) => Message {
                sender: v.voter,
                kind: MessageKind::Committee(CommitteeConsensusMessage::DAVote(v)),
            },
            HotShotEvent::ViewSyncCertificateSend(c, s) => Message {
                sender: s,
                kind: MessageKind::General(GeneralConsensusMessage::ViewSyncCertificate(c)),
            },
            HotShotEvent::ViewSyncVoteSend(v) => Message {
                sender: v.voter,
                kind: MessageKind::General(GeneralConsensusMessage::ViewSyncVote(v)),
            },
            HotShotEvent::ViewChange(view) => {
                self.view = view;
                return NetworkAction::Nothing;
            },
            HotShotEvent::Shutdown => {
                return NetworkAction::ShutDown;
            },
            _ => {
                return NetworkAction::Nothing;
            },
        };
        NetworkAction::Broadcast(message)
    }

    /// Filters network events: whether the network task handles `event`.
    pub fn filter(event: &HotShotEvent) -> (r: bool)
        ensures
            r == is_network_event(*event),
    {
        match event {
            HotShotEvent::QuorumProposalSend(_, _)
            | HotShotEvent::QuorumVoteSend(_)
            | HotShotEvent::TimeoutVoteSend(_)
            | HotShotEvent::DAProposalSend(_, _)
            | HotShotEvent::DAVoteSend(_)
            | HotShotEvent::ViewSyncVoteSend(_)
            | HotShotEvent::ViewSyncCertificateSend(_, _)
            | HotShotEvent::Shutdown
            | HotShotEvent::ViewChange(_) => true,
            _ => false,
        }
    }
}

} // verus!
