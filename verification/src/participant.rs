//! The participant's side of the protocol: it services a proposal by voting
//! on the outcome of its local operation, logs a commit vote, awaits the
//! global decision, and tallies and logs whatever the coordinator decided.
//! The channel, the Bernoulli draws and the decision deadline belong to the
//! surrounding program, which hands their outcomes in as plain values.

use vstd::prelude::*;
use crate::coordinator::{commit_rule, decision_kind};
use crate::message::{MessageType, MessageView, ProtocolMessage};
use crate::oplog::{count_of_type, lemma_count_push, LogEntryView, OpLog};
use crate::status::{render_status_line, status_line_spec};

verus! {

/// States of the participant's 2PC state machine.
#[derive(Clone, Copy, Debug, PartialEq, Eq, Structural)]
pub enum ParticipantState {
    Quiescent,
    ReceivedP1,
    VotedAbort,
    VotedCommit,
    AwaitingGlobalDecision,
}

/// What a message received while awaiting the global decision did to the
/// in-flight transaction.
#[derive(Clone, Copy, Debug, PartialEq, Eq, Structural)]
pub enum DecisionOutcome {
    /// The matching commit decision arrived and was tallied and logged.
    Committed,
    /// The matching abort decision arrived and was tallied and logged.
    Aborted,
    /// An exit signal arrived; the transaction stays unknown.
    ExitSeen,
    /// The message did not concern this transaction and was discarded.
    Ignored,
}

/// A participant node's state: its name, state-machine value, durable log,
/// and the tallies of decided transactions.
#[derive(Debug)]
pub struct Participant {
    pub id_str: String,
    pub state: ParticipantState,
    pub log: OpLog,
    pub successful_ops: u64,
    pub failed_ops: u64,
    pub unknown_ops: u64,
}

impl Participant {
    /// The tallies are exactly the decisions in the log: `successful_ops`
    /// counts the logged global commits, `failed_ops` the logged global
    /// aborts.
    pub open spec fn inv(&self) -> bool {
        &&& self.log.wf()
        &&& self.successful_ops == count_of_type(self.log@, MessageType::CoordinatorCommit)
        &&& self.failed_ops == count_of_type(self.log@, MessageType::CoordinatorAbort)
    }

    /// A fresh participant, resting, with an empty log.
    pub fn new(id_str: String) -> (r: Self)
        ensures
            r.inv(),
            r.id_str@ == id_str@,
            r.state == ParticipantState::Quiescent,
            r.log@ == Seq::<LogEntryView>::empty(),
            r.successful_ops == 0,
            r.failed_ops == 0,
            r.unknown_ops == 0,
    {
        Participant {
            id_str,
            state: ParticipantState::Quiescent,
            log: OpLog::new(),
            successful_ops: 0,
            failed_ops: 0,
            unknown_ops: 0,
        }
    }

    /// Services a phase-1 proposal: the local operation's outcome decides the
    /// vote; a commit vote is logged before it can be sent, an abort vote is
    /// not logged. Returns the vote message for the coordinator.
    pub fn handle_proposal(&mut self, msg: &ProtocolMessage, op_success: bool) -> (vote:
        ProtocolMessage)
        requires
            old(self).inv(),
            old(self).state == ParticipantState::Quiescent,
            old(self).log@.len() < u32::MAX,
            msg@.mtype == MessageType::CoordinatorPropose,
        ensures
            final(self).inv(),
            final(self).id_str@ == old(self).id_str@,
            final(self).successful_ops == old(self).successful_ops,
            final(self).failed_ops == old(self).failed_ops,
            final(self).unknown_ops == old(self).unknown_ops,
            vote@ == (MessageView {
                mtype: if op_success {
                    MessageType::ParticipantVoteCommit
                } else {
                    MessageType::ParticipantVoteAbort
                },
                txid: msg@.txid,
                senderid: old(self).id_str@,
                opid: msg@.opid,
            }),
            op_success ==> final(self).state == ParticipantState::VotedCommit && final(self).log@
                == old(self).log@.push(
                LogEntryView {
                    seqno: (old(self).log@.len() + 1) as u32,
                    msg: MessageView {
                        mtype: MessageType::ParticipantVoteCommit,
                        txid: msg@.txid,
                        senderid: old(self).id_str@,
                        opid: msg@.opid,
                    },
                },
            ),
            !op_success ==> final(self).state == ParticipantState::VotedAbort && final(self).log
                == old(self).log,
    {
        self.state = ParticipantState::ReceivedP1;
        if op_success {
            self.state = ParticipantState::VotedCommit;
            let ghost before = self.log@;
            self.log.append(
                MessageType::ParticipantVoteCommit,
                msg.txid.clone(),
                self.id_str.clone(),
                msg.opid,
            );
            proof {
                let e = self.log@.last();
                lemma_count_push(before, e, MessageType::CoordinatorCommit);
                lemma_count_push(before, e, MessageType::CoordinatorAbort);
            }
            ProtocolMessage::generate(
                MessageType::ParticipantVoteCommit,
                msg.txid.clone(),
                self.id_str.clone(),
                msg.opid,
            )
        } else {
            self.state = ParticipantState::VotedAbort;
            ProtocolMessage::generate(
                MessageType::ParticipantVoteAbort,
                msg.txid.clone(),
                self.id_str.clone(),
                msg.opid,
            )
        }
    }

    /// Notes that the vote was handed to the (lossy) transport — whether or
    /// not it was actually sent — and turns to awaiting the global decision.
    pub fn vote_dispatched(&mut self)
        requires
            old(self).state == ParticipantState::VotedCommit || old(self).state
                == ParticipantState::VotedAbort,
        ensures
            final(self).state == ParticipantState::AwaitingGlobalDecision,
            final(self).id_str@ == old(self).id_str@,
            final(self).log == old(self).log,
            final(self).successful_ops == old(self).successful_ops,
            final(self).failed_ops == old(self).failed_ops,
            final(self).unknown_ops == old(self).unknown_ops,
    {
        self.state = ParticipantState::AwaitingGlobalDecision;
    }

    /// Applies a message received while awaiting the global decision of the
    /// transaction `txid`/`opid`: the matching decision is tallied and
    /// logged, an exit signal leaves the outcome unknown, and any other
    /// message is discarded.
    pub fn handle_decision(&mut self, txid: &String, opid: u32, msg: &ProtocolMessage) -> (r:
        DecisionOutcome)
        requires
            old(self).inv(),
            old(self).state == ParticipantState::AwaitingGlobalDecision,
            old(self).log@.len() < u32::MAX,
            old(self).unknown_ops < u64::MAX,
        ensures
            final(self).inv(),
            final(self).id_str@ == old(self).id_str@,
            msg@.mtype == MessageType::CoordinatorExit ==> ({
                &&& r == DecisionOutcome::ExitSeen
                &&& final(self).state == ParticipantState::Quiescent
                &&& final(self).log == old(self).log
                &&& final(self).successful_ops == old(self).successful_ops
                &&& final(self).failed_ops == old(self).failed_ops
                &&& final(self).unknown_ops == old(self).unknown_ops + 1
            }),
            msg@.mtype != MessageType::CoordinatorExit && msg@.txid == txid@ && (msg@.mtype
                == MessageType::CoordinatorCommit || msg@.mtype == MessageType::CoordinatorAbort)
                ==> ({
                let commit = msg@.mtype == MessageType::CoordinatorCommit;
                &&& r == (if commit {
                    DecisionOutcome::Committed
                } else {
                    DecisionOutcome::Aborted
                })
                &&& final(self).state == ParticipantState::Quiescent
                &&& final(self).log@ == old(self).log@.push(
                    LogEntryView {
                        seqno: (old(self).log@.len() + 1) as u32,
                        msg: MessageView {
                            mtype: msg@.mtype,
                            txid: txid@,
                            senderid: old(self).id_str@,
                            opid,
                        },
                    },
                )
                &&& final(self).successful_ops == old(self).successful_ops + (if commit {
                    1int
                } else {
                    0int
                })
                &&& final(self).failed_ops == old(self).failed_ops + (if commit {
                    0int
                } else {
                    1int
                })
                &&& final(self).unknown_ops == old(self).unknown_ops
            }),
            msg@.mtype != MessageType::CoordinatorExit && !(msg@.txid == txid@ && (msg@.mtype
                == MessageType::CoordinatorCommit || msg@.mtype == MessageType::CoordinatorAbort))
                ==> r == DecisionOutcome::Ignored && *final(self) == *old(self),
    {
        if matches!(msg.mtype, MessageType::CoordinatorExit) {
            self.unknown_ops = self.unknown_ops + 1;
            self.state = ParticipantState::Quiescent;
            return DecisionOutcome::ExitSeen;
        }
        if msg.txid.eq(txid) {
            proof {
                crate::oplog::lemma_count_le_len(self.log@, MessageType::CoordinatorCommit);
                crate::oplog::lemma_count_le_len(self.log@, MessageType::CoordinatorAbort);
            }
            if matches!(msg.mtype, MessageType::CoordinatorCommit) {
                self.successful_ops = self.successful_ops + 1;
                let ghost before = self.log@;
                self.log.append(
                    MessageType::CoordinatorCommit,
                    txid.clone(),
                    self.id_str.clone(),
                    opid,
                );
                proof {
                    let e = self.log@.last();
                    lemma_count_push(before, e, MessageType::CoordinatorCommit);
                    lemma_count_push(before, e, MessageType::CoordinatorAbort);
                }
                self.state = ParticipantState::Quiescent;
                return DecisionOutcome::Committed;
            }
            if matches!(msg.mtype, MessageType::CoordinatorAbort) {
                self.failed_ops = self.failed_ops + 1;
                let ghost before = self.log@;
                self.log.append(
                    MessageType::CoordinatorAbort,
                    txid.clone(),
                    self.id_str.clone(),
                    opid,
                );
                proof {
                    let e = self.log@.last();
                    lemma_count_push(before, e, MessageType::CoordinatorCommit);
                    lemma_count_push(before, e, MessageType::CoordinatorAbort);
                }
                self.state = ParticipantState::Quiescent;
                return DecisionOutcome::Aborted;
            }
        }
        DecisionOutcome::Ignored
    }

    /// Gives the in-flight transaction up: its decision never arrived within
    /// the deadline, so its outcome is unknown.
    pub fn decision_timeout(&mut self)
        requires
            old(self).state == ParticipantState::AwaitingGlobalDecision,
            old(self).unknown_ops < u64::MAX,
        ensures
            final(self).state == ParticipantState::Quiescent,
            final(self).id_str@ == old(self).id_str@,
            final(self).log == old(self).log,
            final(self).successful_ops == old(self).successful_ops,
            final(self).failed_ops == old(self).failed_ops,
            final(self).unknown_ops == old(self).unknown_ops + 1,
    {
        self.unknown_ops = self.unknown_ops + 1;
        self.state = ParticipantState::Quiescent;
    }

    /// The participant's status line.
    pub fn status_line(&self) -> (r: String)
        ensures
            r@ == status_line_spec(
                self.id_str@,
                self.successful_ops,
                self.failed_ops,
                self.unknown_ops,
            ),
    {
        render_status_line(
            self.id_str.as_str(),
            self.successful_ops,
            self.failed_ops,
            self.unknown_ops,
        )
    }
}

/// Whether an entry is a global decision — commit or abort — for transaction
/// `txid`.
pub open spec fn is_decision_for(e: LogEntryView, txid: Seq<char>) -> bool {
    e.msg.txid == txid && (e.msg.mtype == MessageType::CoordinatorCommit || e.msg.mtype
        == MessageType::CoordinatorAbort)
}

/// How many entries of a log are global decisions for transaction `txid`.
pub open spec fn decision_count_for(s: Seq<LogEntryView>, txid: Seq<char>) -> nat
    decreases s.len(),
{
    if s.len() == 0 {
        0
    } else {
        decision_count_for(s.drop_last(), txid) + (if is_decision_for(s.last(), txid) {
            1nat
        } else {
            0nat
        })
    }
}

/// A decision entry at any position puts the count at one at least.
proof fn lemma_count_at_least_one(s: Seq<LogEntryView>, txid: Seq<char>, i: int)
    requires
        0 <= i < s.len(),
        is_decision_for(s[i], txid),
    ensures
        decision_count_for(s, txid) >= 1,
    decreases s.len(),
{
    if i < s.len() - 1 {
        let d = s.drop_last();
        assert(d[i] == s[i]);
        lemma_count_at_least_one(d, txid, i);
    }
}

/// Two decision entries at distinct positions put the count at two at least.
proof fn lemma_count_at_least_two(s: Seq<LogEntryView>, txid: Seq<char>, i: int, j: int)
    requires
        0 <= i < j < s.len(),
        is_decision_for(s[i], txid),
        is_decision_for(s[j], txid),
    ensures
        decision_count_for(s, txid) >= 2,
    decreases s.len(),
{
    let d = s.drop_last();
    if j == s.len() - 1 {
        assert(d[i] == s[i]);
        lemma_count_at_least_one(d, txid, i);
    } else {
        assert(d[i] == s[i]);
        assert(d[j] == s[j]);
        lemma_count_at_least_two(d, txid, i, j);
    }
}

/// Never both: a log whose decision count for a transaction is at most one —
/// as [`lemma_one_decision_per_txid`] keeps it — cannot hold a commit entry
/// and an abort entry for that transaction, nor any two decision entries.
pub proof fn lemma_never_both(s: Seq<LogEntryView>, txid: Seq<char>)
    requires
        decision_count_for(s, txid) <= 1,
    ensures
        forall|i: int, j: int|
            !(0 <= i < j < s.len() && is_decision_for(#[trigger] s[i], txid) && is_decision_for(
                #[trigger] s[j],
                txid,
            )),
{
    assert forall|i: int, j: int|
        !(0 <= i < j < s.len() && is_decision_for(#[trigger] s[i], txid) && is_decision_for(
            #[trigger] s[j],
            txid,
        )) by {
        if 0 <= i < j < s.len() && is_decision_for(s[i], txid) && is_decision_for(s[j], txid) {
            lemma_count_at_least_two(s, txid, i, j);
        }
    }
}

/// One global decision per transaction: the kind the coordinator appends to
/// its own log is `decision_kind` of its tally, the phase-2 message carries
/// that same kind, and a participant that applies the message appends that
/// kind in turn. The coordinator's entry and every participant's entry for
/// one transaction therefore agree, and the kind is commit or abort, never
/// both.
pub proof fn lemma_decision_agreement(votes_commit: int, votes_abort: int, n: int)
    ensures
        decision_kind(votes_commit, votes_abort, n) == MessageType::CoordinatorCommit
            <==> commit_rule(votes_commit, votes_abort, n),
        decision_kind(votes_commit, votes_abort, n) == MessageType::CoordinatorAbort
            <==> !commit_rule(votes_commit, votes_abort, n),
        decision_kind(votes_commit, votes_abort, n) == MessageType::CoordinatorCommit
            || decision_kind(votes_commit, votes_abort, n) == MessageType::CoordinatorAbort,
{
}

/// A node that has no decision entry for a transaction and then records one
/// has exactly one: within a run a transaction is decided at most once at
/// each node, so no log ever holds both a commit and an abort entry for the
/// same transaction id.
pub proof fn lemma_one_decision_per_txid(s: Seq<LogEntryView>, e: LogEntryView, txid: Seq<char>)
    requires
        decision_count_for(s, txid) == 0,
        e.msg.txid == txid,
        e.msg.mtype == MessageType::CoordinatorCommit || e.msg.mtype
            == MessageType::CoordinatorAbort,
    ensures
        decision_count_for(s.push(e), txid) == 1,
{
    assert(s.push(e).drop_last() =~= s);
}

} // verus!
