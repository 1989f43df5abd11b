//! The coordinator's side of the protocol: it accepts one client request at a
//! time, broadcasts the phase-1 proposal, aggregates votes, decides commit or
//! abort, logs the decision before it is sent, and answers the requesting
//! client. Channel polling, the vote deadline and the shutdown flag belong to
//! the surrounding program, which feeds every received message and every
//! elapsed deadline into these functions as plain values.

use vstd::prelude::*;
use crate::message::{MessageType, MessageView, ProtocolMessage};
use crate::oplog::{count_of_type, lemma_count_push, LogEntryView, OpLog};
use crate::status::{render_status_line, status_line_spec};

verus! {

/// States of the coordinator's 2PC state machine.
#[derive(Clone, Copy, Debug, PartialEq, Eq, Structural)]
pub enum CoordinatorState {
    Quiescent,
    ReceivedRequest,
    ProposalSent,
    ReceivedVotesAbort,
    ReceivedVotesCommit,
    SentGlobalDecision,
}

/// Why a registration was refused: registering is a programmer error once the
/// coordinator has left its resting state, and names are unique per kind.
#[derive(Clone, Copy, Debug, PartialEq, Eq, Structural)]
pub enum RegistrationError {
    NotQuiescent,
    DuplicateName,
}

/// The name the coordinator signs its messages with.
pub open spec fn coordinator_id() -> Seq<char> {
    "coordinator"@
}

/// The decision rule of 2PC: commit exactly when every registered participant
/// voted commit and no abort vote was observed.
pub open spec fn commit_rule(votes_commit: int, votes_abort: int, n: int) -> bool {
    votes_commit == n && votes_abort == 0
}

/// The kind of the global decision the rule yields: one of commit or abort,
/// never both.
pub open spec fn decision_kind(votes_commit: int, votes_abort: int, n: int) -> MessageType {
    if commit_rule(votes_commit, votes_abort, n) {
        MessageType::CoordinatorCommit
    } else {
        MessageType::CoordinatorAbort
    }
}

/// Whether some name of `s` reads `n`.
pub open spec fn name_in(s: Seq<String>, n: Seq<char>) -> bool {
    exists|i: int| 0 <= i < s.len() && s[i]@ == n
}

/// The one transaction in flight, from request pickup to the phase-2 sends:
/// its identity, its originating client, and the votes collected so far.
#[derive(Debug)]
pub struct PendingTxn {
    pub txid: String,
    pub opid: u32,
    pub client_id: String,
    pub votes_commit: u64,
    pub votes_abort: u64,
}

impl PendingTxn {
    /// Counts a received message toward the vote tally: a vote for this very
    /// transaction raises its counter; anything else is discarded.
    pub fn record_vote(&mut self, msg: &ProtocolMessage)
        requires
            old(self).votes_commit + old(self).votes_abort < u64::MAX,
        ensures
            final(self).txid@ == old(self).txid@,
            final(self).opid == old(self).opid,
            final(self).client_id@ == old(self).client_id@,
            final(self).votes_commit == old(self).votes_commit + (if msg@.txid == old(self).txid@
                && msg@.mtype == MessageType::ParticipantVoteCommit {
                1int
            } else {
                0int
            }),
            final(self).votes_abort == old(self).votes_abort + (if msg@.txid == old(self).txid@
                && msg@.mtype == MessageType::ParticipantVoteAbort {
                1int
            } else {
                0int
            }),
    {
        if msg.txid == self.txid {
            if msg.mtype == MessageType::ParticipantVoteCommit {
                self.votes_commit = self.votes_commit + 1;
            } else if msg.mtype == MessageType::ParticipantVoteAbort {
                self.votes_abort = self.votes_abort + 1;
            }
        }
    }

    /// Whether the vote-collection loop is over: every vote is in, the
    /// deadline passed, shutdown was requested, or an abort vote already
    /// settles the decision.
    pub fn collection_done(&self, num_participants: usize, timed_out: bool, shutdown: bool) -> (r:
        bool)
        ensures
            r == (self.votes_commit + self.votes_abort >= num_participants || timed_out || shutdown
                || self.votes_abort > 0),
    {
        if timed_out || shutdown || self.votes_abort > 0 {
            true
        } else {
            self.votes_commit >= num_participants as u64
        }
    }
}

/// The coordinator node's state: its state-machine value, its durable log,
/// the registered peer names, and the aggregate decision tallies.
#[derive(Debug)]
pub struct Coordinator {
    pub state: CoordinatorState,
    pub log: OpLog,
    pub participants: Vec<String>,
    pub clients: Vec<String>,
    pub successful_ops: u64,
    pub failed_ops: u64,
    pub unknown_ops: u64,
}

impl Coordinator {
    /// The tallies are exactly the decisions in the log: `successful_ops`
    /// counts its commit entries, `failed_ops` its abort entries, and nothing
    /// was ever decided without being logged.
    pub open spec fn inv(&self) -> bool {
        &&& self.log.wf()
        &&& self.successful_ops == count_of_type(self.log@, MessageType::CoordinatorCommit)
        &&& self.failed_ops == count_of_type(self.log@, MessageType::CoordinatorAbort)
    }

    /// A fresh coordinator with no peers and an empty log.
    pub fn new() -> (r: Self)
        ensures
            r.inv(),
            r.state == CoordinatorState::Quiescent,
            r.log@ == Seq::<LogEntryView>::empty(),
            r.participants@ == Seq::<String>::empty(),
            r.clients@ == Seq::<String>::empty(),
            r.successful_ops == 0,
            r.failed_ops == 0,
            r.unknown_ops == 0,
    {
        let r = Coordinator {
            state: CoordinatorState::Quiescent,
            log: OpLog::new(),
            participants: Vec::new(),
            clients: Vec::new(),
            successful_ops: 0,
            failed_ops: 0,
            unknown_ops: 0,
        };
        proof {
            assert(r.participants@ =~= Seq::<String>::empty());
            assert(r.clients@ =~= Seq::<String>::empty());
        }
        r
    }

    /// Registers a participant. Valid only while the coordinator is resting
    /// and the name is new; a violation is a programmer error and is refused.
    pub fn participant_join(&mut self, name: &String) -> (r: Result<(), RegistrationError>)
        ensures
            old(self).state != CoordinatorState::Quiescent ==> ({
                &&& r == Err::<(), RegistrationError>(RegistrationError::NotQuiescent)
                &&& *final(self) == *old(self)
            }),
            old(self).state == CoordinatorState::Quiescent && name_in(
                old(self).participants@,
                name@,
            ) ==> ({
                &&& r == Err::<(), RegistrationError>(RegistrationError::DuplicateName)
                &&& *final(self) == *old(self)
            }),
            old(self).state == CoordinatorState::Quiescent && !name_in(
                old(self).participants@,
                name@,
            ) ==> ({
                &&& r == Ok::<(), RegistrationError>(())
                &&& final(self).participants@ == old(self).participants@.push(*name)
                &&& final(self).clients == old(self).clients
                &&& final(self).state == old(self).state
                &&& final(self).log == old(self).log
                &&& final(self).successful_ops == old(self).successful_ops
                &&& final(self).failed_ops == old(self).failed_ops
                &&& final(self).unknown_ops == old(self).unknown_ops
            }),
    {
        if !matches!(self.state, CoordinatorState::Quiescent) {
            return Err(RegistrationError::NotQuiescent);
        }
        if contains_name(&self.participants, name) {
            return Err(RegistrationError::DuplicateName);
        }
        self.participants.push(name.clone());
        Ok(())
    }

    /// Registers a client, under the same rule as [`Self::participant_join`].
    pub fn client_join(&mut self, name: &String) -> (r: Result<(), RegistrationError>)
        ensures
            old(self).state != CoordinatorState::Quiescent ==> ({
                &&& r == Err::<(), RegistrationError>(RegistrationError::NotQuiescent)
                &&& *final(self) == *old(self)
            }),
            old(self).state == CoordinatorState::Quiescent && name_in(old(self).clients@, name@)
                ==> ({
                &&& r == Err::<(), RegistrationError>(RegistrationError::DuplicateName)
                &&& *final(self) == *old(self)
            }),
            old(self).state == CoordinatorState::Quiescent && !name_in(old(self).clients@, name@)
                ==> ({
                &&& r == Ok::<(), RegistrationError>(())
                &&& final(self).clients@ == old(self).clients@.push(*name)
                &&& final(self).participants == old(self).participants
                &&& final(self).state == old(self).state
                &&& final(self).log == old(self).log
                &&& final(self).successful_ops == old(self).successful_ops
                &&& final(self).failed_ops == old(self).failed_ops
                &&& final(self).unknown_ops == old(self).unknown_ops
            }),
    {
        if !matches!(self.state, CoordinatorState::Quiescent) {
            return Err(RegistrationError::NotQuiescent);
        }
        if contains_name(&self.clients, name) {
            return Err(RegistrationError::DuplicateName);
        }
        self.clients.push(name.clone());
        Ok(())
    }

    /// Picks up one client request. Anything but a request is discarded and
    /// nothing changes; a request opens a transaction with an empty tally.
    pub fn accept_request(&mut self, msg: &ProtocolMessage, client_id: &String) -> (r: Option<
        PendingTxn,
    >)
        ensures
            msg@.mtype != MessageType::ClientRequest ==> r is None && *final(self) == *old(self),
            msg@.mtype == MessageType::ClientRequest ==> ({
                &&& r is Some
                &&& r->0.txid@ == msg@.txid
                &&& r->0.opid == msg@.opid
                &&& r->0.client_id@ == client_id@
                &&& r->0.votes_commit == 0
                &&& r->0.votes_abort == 0
                &&& final(self).state == CoordinatorState::ReceivedRequest
                &&& final(self).log == old(self).log
                &&& final(self).participants == old(self).participants
                &&& final(self).clients == old(self).clients
                &&& final(self).successful_ops == old(self).successful_ops
                &&& final(self).failed_ops == old(self).failed_ops
                &&& final(self).unknown_ops == old(self).unknown_ops
            }),
    {
        if matches!(msg.mtype, MessageType::ClientRequest) {
            self.state = CoordinatorState::ReceivedRequest;
            Some(
                PendingTxn {
                    txid: msg.txid.clone(),
                    opid: msg.opid,
                    client_id: client_id.clone(),
                    votes_commit: 0,
                    votes_abort: 0,
                },
            )
        } else {
            None
        }
    }

    /// Builds the phase-1 proposal for the transaction and notes that it is
    /// being broadcast.
    pub fn make_proposal(&mut self, txn: &PendingTxn) -> (m: ProtocolMessage)
        ensures
            final(self).state == CoordinatorState::ProposalSent,
            final(self).log == old(self).log,
            final(self).participants == old(self).participants,
            final(self).clients == old(self).clients,
            final(self).successful_ops == old(self).successful_ops,
            final(self).failed_ops == old(self).failed_ops,
            final(self).unknown_ops == old(self).unknown_ops,
            m@ == (MessageView {
                mtype: MessageType::CoordinatorPropose,
                txid: txn.txid@,
                senderid: coordinator_id(),
                opid: txn.opid,
            }),
    {
        self.state = CoordinatorState::ProposalSent;
        ProtocolMessage::generate(
            MessageType::CoordinatorPropose,
            txn.txid.clone(),
            "coordinator".to_owned(),
            txn.opid,
        )
    }

    /// Applies the decision rule to the collected votes, raises the matching
    /// tally, appends the decision to the log, and returns the phase-2
    /// broadcast message together with the reply for the originating client.
    /// The log gains the decision before either message exists to be sent.
    pub fn finish_transaction(&mut self, txn: &PendingTxn, num_participants: usize) -> (r: (
        ProtocolMessage,
        ProtocolMessage,
    ))
        requires
            old(self).inv(),
            old(self).log@.len() < u32::MAX,
        ensures
            final(self).inv(),
            final(self).participants == old(self).participants,
            final(self).clients == old(self).clients,
            final(self).unknown_ops == old(self).unknown_ops,
            ({
                let commit = commit_rule(
                    txn.votes_commit as int,
                    txn.votes_abort as int,
                    num_participants as int,
                );
                let dmt = decision_kind(
                    txn.votes_commit as int,
                    txn.votes_abort as int,
                    num_participants as int,
                );
                &&& r.0@ == (MessageView {
                    mtype: dmt,
                    txid: txn.txid@,
                    senderid: coordinator_id(),
                    opid: txn.opid,
                })
                &&& r.1@ == (MessageView {
                    mtype: if commit {
                        MessageType::ClientResultCommit
                    } else {
                        MessageType::ClientResultAbort
                    },
                    txid: txn.txid@,
                    senderid: coordinator_id(),
                    opid: txn.opid,
                })
                &&& final(self).log@ == old(self).log@.push(
                    LogEntryView {
                        seqno: (old(self).log@.len() + 1) as u32,
                        msg: MessageView {
                            mtype: dmt,
                            txid: txn.txid@,
                            senderid: coordinator_id(),
                            opid: txn.opid,
                        },
                    },
                )
                &&& final(self).state == (if commit {
                    CoordinatorState::ReceivedVotesCommit
                } else {
                    CoordinatorState::ReceivedVotesAbort
                })
                &&& final(self).successful_ops == old(self).successful_ops + (if commit {
                    1int
                } else {
                    0int
                })
                &&& final(self).failed_ops == old(self).failed_ops + (if commit {
                    0int
                } else {
                    1int
                })
            }),
    {
        proof {
            crate::oplog::lemma_count_le_len(self.log@, MessageType::CoordinatorCommit);
            crate::oplog::lemma_count_le_len(self.log@, MessageType::CoordinatorAbort);
        }
        let commit = txn.votes_commit == num_participants as u64 && txn.votes_abort == 0;
        let dmt: MessageType;
        let rmt: MessageType;
        if commit {
            self.successful_ops = self.successful_ops + 1;
            self.state = CoordinatorState::ReceivedVotesCommit;
            dmt = MessageType::CoordinatorCommit;
            rmt = MessageType::ClientResultCommit;
        } else {
            self.failed_ops = self.failed_ops + 1;
            self.state = CoordinatorState::ReceivedVotesAbort;
            dmt = MessageType::CoordinatorAbort;
            rmt = MessageType::ClientResultAbort;
        }
        let ghost before = self.log@;
        self.log.append(dmt, txn.txid.clone(), "coordinator".to_owned(), txn.opid);
        proof {
            let e = self.log@.last();
            lemma_count_push(before, e, MessageType::CoordinatorCommit);
            lemma_count_push(before, e, MessageType::CoordinatorAbort);
        }
        let d = ProtocolMessage::generate(dmt, txn.txid.clone(), "coordinator".to_owned(), txn.opid);
        let c = ProtocolMessage::generate(rmt, txn.txid.clone(), "coordinator".to_owned(), txn.opid);
        (d, c)
    }

    /// Notes that the phase-2 messages have been handed to the transport.
    pub fn note_decision_sent(&mut self)
        ensures
            final(self).state == CoordinatorState::SentGlobalDecision,
            final(self).log == old(self).log,
            final(self).participants == old(self).participants,
            final(self).clients == old(self).clients,
            final(self).successful_ops == old(self).successful_ops,
            final(self).failed_ops == old(self).failed_ops,
            final(self).unknown_ops == old(self).unknown_ops,
    {
        self.state = CoordinatorState::SentGlobalDecision;
    }

    /// The termination signal broadcast to every peer at shutdown.
    pub fn exit_message() -> (m: ProtocolMessage)
        ensures
            m@ == (MessageView {
                mtype: MessageType::CoordinatorExit,
                txid: "exit"@,
                senderid: coordinator_id(),
                opid: 0,
            }),
    {
        ProtocolMessage::generate(
            MessageType::CoordinatorExit,
            "exit".to_owned(),
            "coordinator".to_owned(),
            0,
        )
    }

    /// The coordinator's status line.
    pub fn status_line(&self) -> (r: String)
        ensures
            r@ == status_line_spec(
                coordinator_id(),
                self.successful_ops,
                self.failed_ops,
                self.unknown_ops,
            ),
    {
        render_status_line("coordinator", self.successful_ops, self.failed_ops, self.unknown_ops)
    }
}

/// Whether the list holds this very name.
fn contains_name(names: &Vec<String>, name: &String) -> (r: bool)
    ensures
        r == name_in(names@, name@),
{
    let mut i: usize = 0;
    while i < names.len()
        invariant
            0 <= i <= names@.len(),
            forall|j: int| 0 <= j < i ==> names@[j]@ != name@,
        decreases names@.len() - i,
    {
        if names[i].eq(name) {
            return true;
        }
        i = i + 1;
    }
    false
}

/// The commit and abort votes among `msgs` that belong to transaction `txid`.
pub open spec fn count_votes(msgs: Seq<MessageView>, txid: Seq<char>) -> (nat, nat)
    decreases msgs.len(),
{
    if msgs.len() == 0 {
        (0nat, 0nat)
    } else {
        let (c, a) = count_votes(msgs.drop_last(), txid);
        let m = msgs.last();
        if m.txid == txid && m.mtype == MessageType::ParticipantVoteCommit {
            ((c + 1) as nat, a)
        } else if m.txid == txid && m.mtype == MessageType::ParticipantVoteAbort {
            (c, (a + 1) as nat)
        } else {
            (c, a)
        }
    }
}

/// When every registered participant's commit vote for the transaction
/// arrives and nothing else does, the tally is unanimous and the decision
/// rule yields commit: with reliable sends and always-successful operations,
/// every transaction commits.
pub proof fn lemma_unanimous_commit(msgs: Seq<MessageView>, txid: Seq<char>, n: nat)
    requires
        msgs.len() == n,
        forall|i: int|
            0 <= i < msgs.len() ==> (#[trigger] msgs[i]).mtype
                == MessageType::ParticipantVoteCommit && msgs[i].txid == txid,
    ensures
        count_votes(msgs, txid) == (n, 0nat),
        decision_kind(n as int, 0, n as int) == MessageType::CoordinatorCommit,
    decreases n,
{
    if n > 0 {
        let d = msgs.drop_last();
        assert(forall|i: int| 0 <= i < d.len() ==> d[i] == #[trigger] msgs[i]);
        lemma_unanimous_commit(d, txid, (n - 1) as nat);
    }
}

/// When no commit vote for the transaction arrives — in particular when every
/// participant's operation fails and so every vote is an abort — the rule
/// yields abort for any non-empty set of participants: no transaction
/// commits.
pub proof fn lemma_no_commit_vote_aborts(msgs: Seq<MessageView>, txid: Seq<char>, n: nat)
    requires
        forall|i: int|
            0 <= i < msgs.len() ==> (#[trigger] msgs[i]).mtype
                != MessageType::ParticipantVoteCommit,
        n >= 1,
    ensures
        count_votes(msgs, txid).0 == 0,
        decision_kind(
            count_votes(msgs, txid).0 as int,
            count_votes(msgs, txid).1 as int,
            n as int,
        ) == MessageType::CoordinatorAbort,
    decreases msgs.len(),
{
    if msgs.len() > 0 {
        let d = msgs.drop_last();
        assert(forall|i: int| 0 <= i < d.len() ==> d[i] == #[trigger] msgs[i]);
        lemma_no_commit_vote_aborts(d, txid, n);
    }
}

/// An observed abort vote forces the global decision to abort, whatever else
/// was collected.
pub proof fn lemma_abort_vote_aborts(votes_commit: int, votes_abort: int, n: int)
    requires
        votes_abort > 0,
    ensures
        decision_kind(votes_commit, votes_abort, n) == MessageType::CoordinatorAbort,
{
}

/// The tallies are exactly the logged decisions: `successful_ops` equals the
/// count of commit entries in the coordinator's log and `failed_ops` the
/// count of abort entries.
pub proof fn lemma_decision_accounting(c: Coordinator)
    requires
        c.inv(),
    ensures
        c.successful_ops == count_of_type(c.log@, MessageType::CoordinatorCommit),
        c.failed_ops == count_of_type(c.log@, MessageType::CoordinatorAbort),
{
}

} // verus!
