//! The wire-level record exchanged on every channel: a message kind together
//! with the transaction id, the sender's name and the sender's operation
//! counter. Messages are value-typed; equality is structural.

use vstd::prelude::*;

verus! {

/// The closed set of message kinds that cross a channel.
#[derive(Clone, Copy, Debug, PartialEq, Eq, Structural)]
pub enum MessageType {
    /// A client asks the coordinator to commit a new transaction.
    ClientRequest,
    /// Phase-1 prepare, broadcast by the coordinator to a participant.
    CoordinatorPropose,
    /// A participant's phase-1 commit vote.
    ParticipantVoteCommit,
    /// A participant's phase-1 abort vote.
    ParticipantVoteAbort,
    /// Phase-2 global commit decision.
    CoordinatorCommit,
    /// Phase-2 global abort decision.
    CoordinatorAbort,
    /// The coordinator's commit reply to the requesting client.
    ClientResultCommit,
    /// The coordinator's abort reply to the requesting client.
    ClientResultAbort,
    /// Termination signal propagated to every peer.
    CoordinatorExit,
}

/// Mathematical value of a [`ProtocolMessage`].
pub struct MessageView {
    pub mtype: MessageType,
    pub txid: Seq<char>,
    pub senderid: Seq<char>,
    pub opid: u32,
}

/// The one record exchanged between nodes.
#[derive(Debug)]
pub struct ProtocolMessage {
    pub mtype: MessageType,
    pub txid: String,
    pub senderid: String,
    pub opid: u32,
}

impl View for ProtocolMessage {
    type V = MessageView;

    open spec fn view(&self) -> MessageView {
        MessageView {
            mtype: self.mtype,
            txid: self.txid@,
            senderid: self.senderid@,
            opid: self.opid,
        }
    }
}

impl Clone for ProtocolMessage {
    fn clone(&self) -> (r: Self)
        ensures
            r@ == self@,
    {
        ProtocolMessage {
            mtype: self.mtype,
            txid: self.txid.clone(),
            senderid: self.senderid.clone(),
            opid: self.opid,
        }
    }
}

impl PartialEq for ProtocolMessage {
    fn eq(&self, other: &Self) -> (r: bool) {
        self.mtype == other.mtype && self.opid == other.opid && self.txid == other.txid
            && self.senderid == other.senderid
    }
}

impl vstd::std_specs::cmp::PartialEqSpecImpl for ProtocolMessage {
    open spec fn obeys_eq_spec() -> bool {
        true
    }

    open spec fn eq_spec(&self, other: &Self) -> bool {
        self@ == other@
    }
}

impl ProtocolMessage {
    /// Builds the message from its four fields.
    pub fn generate(mtype: MessageType, txid: String, senderid: String, opid: u32) -> (r: Self)
        ensures
            r@ == (MessageView { mtype, txid: txid@, senderid: senderid@, opid }),
    {
        ProtocolMessage { mtype, txid, senderid, opid }
    }
}

} // verus!
