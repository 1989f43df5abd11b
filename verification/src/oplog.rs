//! The append-only decision log: a per-node journal of protocol events, one
//! entry per appended message, keyed in insertion order by a sequence number
//! starting at 1. Entries are never mutated or deleted. Persistence of the
//! encoded records is the surrounding program's business; the record format
//! itself lives in [`crate::codec`].

use vstd::prelude::*;
use crate::message::{MessageType, MessageView, ProtocolMessage};

verus! {

/// Mathematical value of a [`LogEntry`].
pub struct LogEntryView {
    pub seqno: u32,
    pub msg: MessageView,
}

/// One record of the journal: the message together with its sequence number.
#[derive(Debug)]
pub struct LogEntry {
    pub seqno: u32,
    pub msg: ProtocolMessage,
}

impl View for LogEntry {
    type V = LogEntryView;

    open spec fn view(&self) -> LogEntryView {
        LogEntryView { seqno: self.seqno, msg: self.msg@ }
    }
}

impl Clone for LogEntry {
    fn clone(&self) -> (r: Self)
        ensures
            r@ == self@,
    {
        LogEntry { seqno: self.seqno, msg: self.msg.clone() }
    }
}

/// How many entries of `s` carry a message of kind `mt`.
pub open spec fn count_of_type(s: Seq<LogEntryView>, mt: MessageType) -> nat
    decreases s.len(),
{
    if s.len() == 0 {
        0
    } else {
        count_of_type(s.drop_last(), mt) + (if s.last().msg.mtype == mt {
            1nat
        } else {
            0nat
        })
    }
}

/// No kind is counted more often than there are entries.
pub proof fn lemma_count_le_len(s: Seq<LogEntryView>, mt: MessageType)
    ensures
        count_of_type(s, mt) <= s.len(),
    decreases s.len(),
{
    if s.len() > 0 {
        lemma_count_le_len(s.drop_last(), mt);
    }
}

/// Appending one entry raises by one the count of its own kind and leaves
/// every other count unchanged.
pub proof fn lemma_count_push(s: Seq<LogEntryView>, e: LogEntryView, mt: MessageType)
    ensures
        count_of_type(s.push(e), mt) == count_of_type(s, mt) + (if e.msg.mtype == mt {
            1nat
        } else {
            0nat
        }),
{
    assert(s.push(e).drop_last() =~= s);
}

/// The per-node journal.
#[derive(Debug)]
pub struct OpLog {
    entries: Vec<LogEntry>,
}

impl View for OpLog {
    type V = Seq<LogEntryView>;

    closed spec fn view(&self) -> Seq<LogEntryView> {
        self.entries@.map_values(|e: LogEntry| e@)
    }
}

impl OpLog {
    /// Sequence numbers are exactly the positions shifted by one: the entry at
    /// index `i` carries sequence number `i + 1`.
    pub open spec fn wf(&self) -> bool {
        &&& self@.len() <= u32::MAX
        &&& forall|i: int| 0 <= i < self@.len() ==> #[trigger] self@[i].seqno == i + 1
    }

    /// An empty journal.
    pub fn new() -> (r: Self)
        ensures
            r@ == Seq::<LogEntryView>::empty(),
            r.wf(),
    {
        let l = OpLog { entries: Vec::new() };
        proof {
            assert(l@ =~= Seq::<LogEntryView>::empty());
        }
        l
    }

    /// Builds a journal from already-sequenced entries, e.g. read back from a
    /// file. Succeeds exactly when the sequence numbers are `1, 2, 3, ...`.
    pub fn from_entries(entries: Vec<LogEntry>) -> (r: Option<Self>)
        ensures
            r is Some <==> ({
                &&& entries@.len() <= u32::MAX
                &&& forall|i: int|
                    0 <= i < entries@.len() ==> #[trigger] entries@[i]@.seqno == i + 1
            }),
            r is Some ==> r->0@ == entries@.map_values(|e: LogEntry| e@) && r->0.wf(),
    {
        if entries.len() > u32::MAX as usize {
            return None;
        }
        let mut i: usize = 0;
        while i < entries.len()
            invariant
                0 <= i <= entries@.len(),
                entries@.len() <= u32::MAX,
                forall|j: int| 0 <= j < i ==> #[trigger] entries@[j]@.seqno == j + 1,
            decreases entries@.len() - i,
        {
            if entries[i].seqno as usize != i + 1 {
                proof {
                    assert(entries@[i as int]@.seqno != i + 1);
                }
                return None;
            }
            i = i + 1;
        }
        let l = OpLog { entries };
        Some(l)
    }

    /// Number of entries.
    pub fn len(&self) -> (r: usize)
        ensures
            r == self@.len(),
    {
        self.entries.len()
    }

    /// Constructs the message from the four fields and records it under the
    /// next sequence number.
    pub fn append(&mut self, mtype: MessageType, txid: String, senderid: String, opid: u32)
        requires
            old(self).wf(),
            old(self)@.len() < u32::MAX,
        ensures
            final(self).wf(),
            final(self)@ == old(self)@.push(
                LogEntryView {
                    seqno: (old(self)@.len() + 1) as u32,
                    msg: MessageView { mtype, txid: txid@, senderid: senderid@, opid },
                },
            ),
    {
        let seqno: u32 = (self.entries.len() + 1) as u32;
        let msg = ProtocolMessage::generate(mtype, txid, senderid, opid);
        let entry = LogEntry { seqno, msg };
        let ghost before = self@;
        let ghost ev = entry@;
        self.entries.push(entry);
        proof {
            assert(self@ =~= before.push(ev));
        }
    }

    /// The ordered list of entries, oldest first.
    pub fn read_all(&self) -> (r: &Vec<LogEntry>)
        ensures
            r@.map_values(|e: LogEntry| e@) == self@,
    {
        &self.entries
    }

    /// The entry at a position.
    pub fn get(&self, i: usize) -> (r: &LogEntry)
        requires
            i < self@.len(),
        ensures
            r@ == self@[i as int],
    {
        &self.entries[i]
    }
}

/// Reading the journal back yields exactly the appended entries, in order:
/// the entry at each position holds that position's sequence number, so the
/// sequence numbers run `1 ..= len` with no gap or repetition.
pub proof fn lemma_log_read_in_order(l: OpLog)
    requires
        l.wf(),
    ensures
        forall|i: int| 0 <= i < l@.len() ==> #[trigger] l@[i].seqno == i + 1,
        forall|i: int, j: int|
            0 <= i < j < l@.len() ==> l@[i].seqno < l@[j].seqno,
{
    assert(forall|i: int, j: int|
        0 <= i < j < l@.len() ==> l@[i].seqno < l@[j].seqno) by {
        assert(forall|i: int| 0 <= i < l@.len() ==> #[trigger] l@[i].seqno == i + 1);
    }
}

} // verus!
