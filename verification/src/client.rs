//! The client's side of the protocol: it issues a fixed number of transaction
//! requests, one at a time, and tallies each outcome as commit, abort or
//! unknown. Sending, receiving and the result deadline belong to the
//! surrounding program; it hands every received message to [`classify_result`]
//! and settles each request with [`Client::apply_outcome`].

use vstd::prelude::*;
use crate::message::{MessageType, MessageView, ProtocolMessage};
use crate::numerals::dec_digits;
use crate::status::{render_status_line, status_line_spec};

verus! {

/// The final standing of one transaction at the node that tallies it.
#[derive(Clone, Copy, Debug, PartialEq, Eq, Structural)]
pub enum TxOutcome {
    /// The global decision was commit.
    Commit,
    /// The global decision was abort.
    Abort,
    /// No decision was learned in time; final for this transaction.
    Unknown,
}

/// The transaction id a client stamps on its `k`-th request.
pub open spec fn txid_of(id: Seq<char>, k: u32) -> Seq<char> {
    id + "_op_"@ + dec_digits(k as nat)
}

/// A client node's state: its name, how many requests it has issued, and the
/// tallies of their outcomes.
#[derive(Debug)]
pub struct Client {
    pub id_str: String,
    pub num_requests: u32,
    pub successful_ops: u64,
    pub failed_ops: u64,
    pub unknown_ops: u64,
}

impl Client {
    /// Between transactions every issued request has exactly one tallied
    /// outcome.
    pub open spec fn inv(&self) -> bool {
        self.successful_ops + self.failed_ops + self.unknown_ops == self.num_requests
    }

    /// In the middle of a transaction all but the in-flight request are
    /// tallied.
    pub open spec fn pending(&self) -> bool {
        self.successful_ops + self.failed_ops + self.unknown_ops + 1 == self.num_requests
    }

    /// A fresh client that has issued nothing.
    pub fn new(id_str: String) -> (r: Self)
        ensures
            r.id_str@ == id_str@,
            r.num_requests == 0,
            r.successful_ops == 0,
            r.failed_ops == 0,
            r.unknown_ops == 0,
            r.inv(),
    {
        Client { id_str, num_requests: 0, successful_ops: 0, failed_ops: 0, unknown_ops: 0 }
    }

    /// Starts the next transaction: bumps the request counter and builds the
    /// request message carrying the new, never reused transaction id.
    pub fn send_next_operation(&mut self) -> (m: ProtocolMessage)
        requires
            old(self).inv(),
            old(self).num_requests < u32::MAX,
        ensures
            final(self).pending(),
            final(self).num_requests == old(self).num_requests + 1,
            final(self).id_str@ == old(self).id_str@,
            final(self).successful_ops == old(self).successful_ops,
            final(self).failed_ops == old(self).failed_ops,
            final(self).unknown_ops == old(self).unknown_ops,
            m@ == (MessageView {
                mtype: MessageType::ClientRequest,
                txid: txid_of(old(self).id_str@, (old(self).num_requests + 1) as u32),
                senderid: old(self).id_str@,
                opid: (old(self).num_requests + 1) as u32,
            }),
    {
        self.num_requests = self.num_requests + 1;
        let mut txid = self.id_str.clone();
        txid.append("_op_");
        let k = crate::numerals::u64_to_dec(self.num_requests as u64);
        txid.append(k.as_str());
        ProtocolMessage::generate(
            MessageType::ClientRequest,
            txid,
            self.id_str.clone(),
            self.num_requests,
        )
    }

    /// Settles the in-flight transaction with its outcome, raising exactly
    /// one tally.
    pub fn apply_outcome(&mut self, outcome: TxOutcome)
        requires
            old(self).pending(),
        ensures
            final(self).inv(),
            final(self).id_str@ == old(self).id_str@,
            final(self).num_requests == old(self).num_requests,
            final(self).successful_ops == old(self).successful_ops + (if outcome == TxOutcome::Commit {
                1int
            } else {
                0int
            }),
            final(self).failed_ops == old(self).failed_ops + (if outcome == TxOutcome::Abort {
                1int
            } else {
                0int
            }),
            final(self).unknown_ops == old(self).unknown_ops + (if outcome == TxOutcome::Unknown {
                1int
            } else {
                0int
            }),
    {
        match outcome {
            TxOutcome::Commit => {
                self.successful_ops = self.successful_ops + 1;
            },
            TxOutcome::Abort => {
                self.failed_ops = self.failed_ops + 1;
            },
            TxOutcome::Unknown => {
                self.unknown_ops = self.unknown_ops + 1;
            },
        }
    }

    /// The client's status line.
    pub fn status_line(&self) -> (r: String)
        ensures
            r@ == status_line_spec(
                self.id_str@,
                self.successful_ops,
                self.failed_ops,
                self.unknown_ops,
            ),
    {
        render_status_line(
            self.id_str.as_str(),
            self.successful_ops,
            self.failed_ops,
            self.unknown_ops,
        )
    }
}

/// What a message waited on as a result means for the in-flight transaction:
/// a commit or abort reply settles it, an exit signal leaves it unknown, and
/// anything else is to be ignored (the wait goes on).
pub fn classify_result(m: &ProtocolMessage) -> (r: Option<TxOutcome>)
    ensures
        m@.mtype == MessageType::ClientResultCommit ==> r == Some(TxOutcome::Commit),
        m@.mtype == MessageType::ClientResultAbort ==> r == Some(TxOutcome::Abort),
        m@.mtype == MessageType::CoordinatorExit ==> r == Some(TxOutcome::Unknown),
        m@.mtype != MessageType::ClientResultCommit && m@.mtype != MessageType::ClientResultAbort
            && m@.mtype != MessageType::CoordinatorExit ==> r is None,
{
    if m.mtype == MessageType::ClientResultCommit {
        Some(TxOutcome::Commit)
    } else if m.mtype == MessageType::ClientResultAbort {
        Some(TxOutcome::Abort)
    } else if m.mtype == MessageType::CoordinatorExit {
        Some(TxOutcome::Unknown)
    } else {
        None
    }
}

/// Every issued request is tallied exactly once: at rest, a client's commit,
/// abort and unknown counts always sum to the number of requests it issued.
pub proof fn lemma_request_accounting(c: Client)
    requires
        c.inv(),
    ensures
        c.successful_ops + c.failed_ops + c.unknown_ops == c.num_requests,
{
}

} // verus!
