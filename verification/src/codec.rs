//! The textual record format of the journal. One record is, in order: the
//! sequence number, a one-character message-kind code, the operation id, the
//! transaction id preceded by its length, and the sender name preceded by its
//! length; every number is a fixed-width decimal field. Records are
//! self-delimiting, so a whole journal is just their concatenation, and
//! decoding reconstructs exactly the entries that were encoded.

use vstd::prelude::*;
use crate::message::{MessageType, MessageView, ProtocolMessage};
use crate::numerals::{
    FIELD_WIDTH, dec_fixed, lemma_dec_fixed_round_trip, lemma_dec_fixed_shape, lemma_pow10_field,
    parse_field, pow10, spec_parse_field, u64_to_fixed,
};
use crate::oplog::{LogEntry, LogEntryView, OpLog};

verus! {

/// The one-character code of a message kind.
pub open spec fn mtype_char(mt: MessageType) -> char {
    match mt {
        MessageType::ClientRequest => 'Q',
        MessageType::CoordinatorPropose => 'P',
        MessageType::ParticipantVoteCommit => 'c',
        MessageType::ParticipantVoteAbort => 'a',
        MessageType::CoordinatorCommit => 'C',
        MessageType::CoordinatorAbort => 'A',
        MessageType::ClientResultCommit => 's',
        MessageType::ClientResultAbort => 'f',
        MessageType::CoordinatorExit => 'X',
    }
}

/// The message kind of a code character, if it is one.
pub open spec fn char_mtype(c: char) -> Option<MessageType> {
    if c == 'Q' {
        Some(MessageType::ClientRequest)
    } else if c == 'P' {
        Some(MessageType::CoordinatorPropose)
    } else if c == 'c' {
        Some(MessageType::ParticipantVoteCommit)
    } else if c == 'a' {
        Some(MessageType::ParticipantVoteAbort)
    } else if c == 'C' {
        Some(MessageType::CoordinatorCommit)
    } else if c == 'A' {
        Some(MessageType::CoordinatorAbort)
    } else if c == 's' {
        Some(MessageType::ClientResultCommit)
    } else if c == 'f' {
        Some(MessageType::ClientResultAbort)
    } else if c == 'X' {
        Some(MessageType::CoordinatorExit)
    } else {
        None
    }
}

/// Kind codes decode back to the kind they stand for.
pub proof fn lemma_mtype_round_trip(mt: MessageType)
    ensures
        char_mtype(mtype_char(mt)) == Some(mt),
{
}

/// An entry whose strings fit their length fields. Any string a node can hold
/// in memory does; the bound exists only because the fields are fixed-width.
pub open spec fn encodable(e: LogEntryView) -> bool {
    &&& e.msg.txid.len() < pow10(FIELD_WIDTH as nat)
    &&& e.msg.senderid.len() < pow10(FIELD_WIDTH as nat)
}

/// The encoded form of one entry.
pub open spec fn encode_spec(e: LogEntryView) -> Seq<char> {
    dec_fixed(e.seqno as nat, FIELD_WIDTH as nat) + seq![mtype_char(e.msg.mtype)] + dec_fixed(
        e.msg.opid as nat,
        FIELD_WIDTH as nat,
    ) + dec_fixed(e.msg.txid.len(), FIELD_WIDTH as nat) + e.msg.txid + dec_fixed(
        e.msg.senderid.len(),
        FIELD_WIDTH as nat,
    ) + e.msg.senderid
}

/// Reads one record of `s` starting at `pos`; yields the entry and the
/// position just past it.
pub open spec fn spec_parse_record(s: Seq<char>, pos: int) -> Option<(LogEntryView, int)> {
    match spec_parse_field(s, pos) {
        None => None,
        Some(seqv) => if seqv > u32::MAX {
            None
        } else if pos + FIELD_WIDTH + 1 > s.len() {
            None
        } else {
            match char_mtype(s[pos + FIELD_WIDTH as int]) {
                None => None,
                Some(mt) => match spec_parse_field(s, pos + FIELD_WIDTH + 1) {
                    None => None,
                    Some(opv) => if opv > u32::MAX {
                        None
                    } else {
                        match spec_parse_field(s, pos + 2 * FIELD_WIDTH + 1) {
                            None => None,
                            Some(tlen) => {
                                let tpos = pos + 3 * FIELD_WIDTH + 1;
                                if tpos + tlen > s.len() {
                                    None
                                } else {
                                    match spec_parse_field(s, tpos + tlen) {
                                        None => None,
                                        Some(slen) => {
                                            let spos = tpos + tlen + FIELD_WIDTH;
                                            if spos + slen > s.len() {
                                                None
                                            } else {
                                                Some(
                                                    (
                                                        LogEntryView {
                                                            seqno: seqv as u32,
                                                            msg: MessageView {
                                                                mtype: mt,
                                                                txid: s.subrange(
                                                                    tpos,
                                                                    tpos + tlen,
                                                                ),
                                                                senderid: s.subrange(
                                                                    spos,
                                                                    spos + slen,
                                                                ),
                                                                opid: opv as u32,
                                                            },
                                                        },
                                                        spos + slen,
                                                    ),
                                                )
                                            }
                                        },
                                    }
                                }
                            },
                        }
                    },
                },
            }
        },
    }
}

/// A parsed record lies strictly inside the input: decoding always advances.
pub proof fn lemma_parse_record_bounds(s: Seq<char>, pos: int)
    requires
        spec_parse_record(s, pos) is Some,
    ensures
        ({
            let (e, next) = spec_parse_record(s, pos)->0;
            pos + 4 * FIELD_WIDTH + 1 <= next <= s.len()
        }),
{
}

/// Decoding reads back exactly the record that encoding wrote, from any
/// position, whatever follows it.
pub proof fn lemma_parse_encode(s: Seq<char>, pos: int, e: LogEntryView)
    requires
        encodable(e),
        0 <= pos,
        pos + encode_spec(e).len() <= s.len(),
        s.subrange(pos, pos + encode_spec(e).len() as int) == encode_spec(e),
    ensures
        spec_parse_record(s, pos) == Some((e, pos + encode_spec(e).len() as int)),
{
    let enc = encode_spec(e);
    let w = FIELD_WIDTH as int;
    let tlen = e.msg.txid.len() as int;
    let slen = e.msg.senderid.len() as int;
    lemma_pow10_field();
    lemma_dec_fixed_shape(e.seqno as nat, FIELD_WIDTH as nat);
    lemma_dec_fixed_shape(e.msg.opid as nat, FIELD_WIDTH as nat);
    lemma_dec_fixed_shape(e.msg.txid.len(), FIELD_WIDTH as nat);
    lemma_dec_fixed_shape(e.msg.senderid.len(), FIELD_WIDTH as nat);
    assert(enc.len() == 4 * w + 1 + tlen + slen);

    let f_seq = dec_fixed(e.seqno as nat, FIELD_WIDTH as nat);
    let f_op = dec_fixed(e.msg.opid as nat, FIELD_WIDTH as nat);
    let f_tl = dec_fixed(e.msg.txid.len(), FIELD_WIDTH as nat);
    let f_sl = dec_fixed(e.msg.senderid.len(), FIELD_WIDTH as nat);

    assert(forall|i: int| 0 <= i < enc.len() ==> s[pos + i] == #[trigger] enc[i]) by {
        assert(forall|i: int|
            0 <= i < enc.len() ==> s.subrange(pos, pos + enc.len() as int)[i] == #[trigger] enc[i]);
    }

    // The sequence-number field.
    assert forall|i: int| 0 <= i < w implies s[pos + i] == f_seq[i] by {
        assert(s[pos + i] == enc[i]);
        assert(enc[i] == f_seq[i]);
    }
    assert(s.subrange(pos, pos + w) =~= f_seq);
    lemma_dec_fixed_round_trip(e.seqno as nat, FIELD_WIDTH as nat);
    assert(spec_parse_field(s, pos) == Some(e.seqno as nat));

    // The kind code.
    assert(s[pos + w] == enc[w]);
    assert(enc[w] == mtype_char(e.msg.mtype));
    lemma_mtype_round_trip(e.msg.mtype);

    // The operation-id field.
    assert forall|i: int| 0 <= i < w implies s[pos + w + 1 + i] == f_op[i] by {
        assert(s[pos + w + 1 + i] == enc[w + 1 + i]);
        assert(enc[w + 1 + i] == f_op[i]);
    }
    assert(s.subrange(pos + w + 1, pos + 2 * w + 1) =~= f_op);
    lemma_dec_fixed_round_trip(e.msg.opid as nat, FIELD_WIDTH as nat);
    assert(spec_parse_field(s, pos + w + 1) == Some(e.msg.opid as nat));

    // The transaction id, length then characters.
    assert forall|i: int| 0 <= i < w implies s[pos + 2 * w + 1 + i] == f_tl[i] by {
        assert(s[pos + 2 * w + 1 + i] == enc[2 * w + 1 + i]);
        assert(enc[2 * w + 1 + i] == f_tl[i]);
    }
    assert(s.subrange(pos + 2 * w + 1, pos + 3 * w + 1) =~= f_tl);
    lemma_dec_fixed_round_trip(e.msg.txid.len(), FIELD_WIDTH as nat);
    assert(spec_parse_field(s, pos + 2 * w + 1) == Some(e.msg.txid.len()));
    let tpos = pos + 3 * w + 1;
    assert forall|i: int| 0 <= i < tlen implies s[tpos + i] == e.msg.txid[i] by {
        assert(s[tpos + i] == enc[3 * w + 1 + i]);
        assert(enc[3 * w + 1 + i] == e.msg.txid[i]);
    }
    assert(s.subrange(tpos, tpos + tlen) =~= e.msg.txid);

    // The sender name, length then characters.
    assert forall|i: int| 0 <= i < w implies s[tpos + tlen + i] == f_sl[i] by {
        assert(s[tpos + tlen + i] == enc[3 * w + 1 + tlen + i]);
        assert(enc[3 * w + 1 + tlen + i] == f_sl[i]);
    }
    assert(s.subrange(tpos + tlen, tpos + tlen + w) =~= f_sl);
    lemma_dec_fixed_round_trip(e.msg.senderid.len(), FIELD_WIDTH as nat);
    assert(spec_parse_field(s, tpos + tlen) == Some(e.msg.senderid.len()));
    let spos = tpos + tlen + w;
    assert forall|i: int| 0 <= i < slen implies s[spos + i] == e.msg.senderid[i] by {
        assert(s[spos + i] == enc[4 * w + 1 + tlen + i]);
        assert(enc[4 * w + 1 + tlen + i] == e.msg.senderid[i]);
    }
    assert(s.subrange(spos, spos + slen) =~= e.msg.senderid);

    let (pe, pnext) = spec_parse_record(s, pos)->0;
    assert(pe.msg =~= e.msg);
}

/// A record written to the log reconstructs to an equal value: decoding the
/// encoding of any entry yields that entry back.
pub proof fn lemma_record_round_trip(e: LogEntryView)
    requires
        encodable(e),
    ensures
        spec_parse_record(encode_spec(e), 0) == Some((e, encode_spec(e).len() as int)),
{
    let enc = encode_spec(e);
    assert(enc.subrange(0, enc.len() as int) =~= enc);
    lemma_parse_encode(enc, 0, e);
}

/// The encoded form of a whole journal: the records in order.
pub open spec fn encode_log_spec(es: Seq<LogEntryView>) -> Seq<char>
    decreases es.len(),
{
    if es.len() == 0 {
        Seq::empty()
    } else {
        encode_log_spec(es.drop_last()) + encode_spec(es.last())
    }
}

/// Peeling the first record off an encoded journal.
pub proof fn lemma_encode_log_first(es: Seq<LogEntryView>)
    requires
        es.len() > 0,
    ensures
        encode_log_spec(es) == encode_spec(es.first()) + encode_log_spec(es.drop_first()),
    decreases es.len(),
{
    if es.len() == 1 {
        assert(es.drop_last() =~= Seq::<LogEntryView>::empty());
        assert(es.drop_first() =~= Seq::<LogEntryView>::empty());
        assert(encode_log_spec(es) =~= encode_spec(es.first()) + encode_log_spec(
            es.drop_first(),
        ));
    } else {
        let d = es.drop_last();
        lemma_encode_log_first(d);
        assert(d.first() == es.first());
        assert(d.drop_first() =~= es.drop_first().drop_last());
        assert(es.drop_first().last() == es.last());
        assert(encode_log_spec(es) =~= encode_spec(es.first()) + encode_log_spec(
            es.drop_first(),
        ));
    }
}

/// Reads records from `pos` to the end of `s`; yields them all, or nothing if
/// the tail is not a sequence of records.
pub open spec fn spec_parse_log_from(s: Seq<char>, pos: int) -> Option<Seq<LogEntryView>>
    decreases s.len() - pos,
{
    if pos == s.len() {
        Some(Seq::empty())
    } else if pos < 0 || pos > s.len() {
        None
    } else {
        match spec_parse_record(s, pos) {
            None => None,
            Some((e, next)) => if pos < next <= s.len() {
                match spec_parse_log_from(s, next) {
                    None => None,
                    Some(rest) => Some(seq![e] + rest),
                }
            } else {
                None
            },
        }
    }
}

/// A journal's worth of records decodes back to exactly the entries that were
/// encoded, in order.
pub proof fn lemma_log_round_trip_from(s: Seq<char>, pos: int, es: Seq<LogEntryView>)
    requires
        forall|i: int| 0 <= i < es.len() ==> encodable(#[trigger] es[i]),
        0 <= pos <= s.len(),
        s.subrange(pos, s.len() as int) == encode_log_spec(es),
    ensures
        spec_parse_log_from(s, pos) == Some(es),
    decreases es.len(),
{
    if es.len() == 0 {
        assert(s.len() - pos == 0);
        assert(es =~= Seq::<LogEntryView>::empty());
    } else {
        lemma_encode_log_first(es);
        let e0 = es.first();
        let enc0 = encode_spec(e0);
        let tail = encode_log_spec(es.drop_first());
        assert(s.len() - pos == enc0.len() + tail.len()) by {
            assert(s.subrange(pos, s.len() as int).len() == (enc0 + tail).len());
        }
        assert(forall|i: int|
            0 <= i < s.len() - pos ==> s[pos + i] == #[trigger] (enc0 + tail)[i]) by {
            assert(forall|i: int|
                0 <= i < s.len() - pos ==> s.subrange(pos, s.len() as int)[i] == #[trigger] (enc0
                    + tail)[i]);
        }
        assert forall|i: int| 0 <= i < enc0.len() implies s[pos + i] == enc0[i] by {
            assert(s[pos + i] == (enc0 + tail)[i]);
        }
        assert(s.subrange(pos, pos + enc0.len() as int) =~= enc0);
        assert(e0 == es[0]);
        lemma_parse_encode(s, pos, e0);
        let next = pos + enc0.len() as int;
        assert forall|i: int| 0 <= i < tail.len() implies s[next + i] == tail[i] by {
            assert(s[next + i] == (enc0 + tail)[enc0.len() + i]);
        }
        assert(s.subrange(next, s.len() as int) =~= tail);
        assert(forall|i: int|
            0 <= i < es.drop_first().len() ==> encodable(#[trigger] es.drop_first()[i]));
        lemma_log_round_trip_from(s, next, es.drop_first());
        lemma_parse_record_bounds(s, pos);
        assert(seq![e0] + es.drop_first() =~= es);
    }
}

/// Round trip of a whole journal, stated at its start.
pub proof fn lemma_log_round_trip(es: Seq<LogEntryView>)
    requires
        forall|i: int| 0 <= i < es.len() ==> encodable(#[trigger] es[i]),
    ensures
        spec_parse_log_from(encode_log_spec(es), 0) == Some(es),
{
    let s = encode_log_spec(es);
    assert(s.subrange(0, s.len() as int) =~= s);
    lemma_log_round_trip_from(s, 0, es);
}

/// Returns the one-character string of a message-kind code.
fn mtype_str(mt: MessageType) -> (r: &'static str)
    ensures
        r@ =~= seq![mtype_char(mt)],
{
    proof {
        reveal_strlit("Q");
        reveal_strlit("P");
        reveal_strlit("c");
        reveal_strlit("a");
        reveal_strlit("C");
        reveal_strlit("A");
        reveal_strlit("s");
        reveal_strlit("f");
        reveal_strlit("X");
    }
    match mt {
        MessageType::ClientRequest => "Q",
        MessageType::CoordinatorPropose => "P",
        MessageType::ParticipantVoteCommit => "c",
        MessageType::ParticipantVoteAbort => "a",
        MessageType::CoordinatorCommit => "C",
        MessageType::CoordinatorAbort => "A",
        MessageType::ClientResultCommit => "s",
        MessageType::ClientResultAbort => "f",
        MessageType::CoordinatorExit => "X",
    }
}

/// The message kind of a code character, if it is one.
fn code_mtype(c: char) -> (r: Option<MessageType>)
    ensures
        r == char_mtype(c),
{
    if c == 'Q' {
        Some(MessageType::ClientRequest)
    } else if c == 'P' {
        Some(MessageType::CoordinatorPropose)
    } else if c == 'c' {
        Some(MessageType::ParticipantVoteCommit)
    } else if c == 'a' {
        Some(MessageType::ParticipantVoteAbort)
    } else if c == 'C' {
        Some(MessageType::CoordinatorCommit)
    } else if c == 'A' {
        Some(MessageType::CoordinatorAbort)
    } else if c == 's' {
        Some(MessageType::ClientResultCommit)
    } else if c == 'f' {
        Some(MessageType::ClientResultAbort)
    } else if c == 'X' {
        Some(MessageType::CoordinatorExit)
    } else {
        None
    }
}

/// Renders one entry as its record.
pub fn encode_entry(e: &LogEntry) -> (r: String)
    requires
        encodable(e@),
    ensures
        r@ == encode_spec(e@),
{
    proof {
        lemma_pow10_field();
    }
    let mut s = u64_to_fixed(e.seqno as u64, FIELD_WIDTH);
    s.append(mtype_str(e.msg.mtype));
    let f_op = u64_to_fixed(e.msg.opid as u64, FIELD_WIDTH);
    s.append(f_op.as_str());
    let tlen = e.msg.txid.as_str().unicode_len();
    let f_tl = u64_to_fixed(tlen as u64, FIELD_WIDTH);
    s.append(f_tl.as_str());
    s.append(e.msg.txid.as_str());
    let slen = e.msg.senderid.as_str().unicode_len();
    let f_sl = u64_to_fixed(slen as u64, FIELD_WIDTH);
    s.append(f_sl.as_str());
    s.append(e.msg.senderid.as_str());
    proof {
        assert(s@ =~= encode_spec(e@));
    }
    s
}

/// Reads one record of `s` starting at `pos`; on success also returns the
/// position just past it.
pub fn decode_entry(s: &str, pos: usize) -> (r: Option<(LogEntry, usize)>)
    requires
        pos <= s@.len(),
        s@.len() <= usize::MAX,
    ensures
        r is Some <==> spec_parse_record(s@, pos as int) is Some,
        r is Some ==> ({
            let (re, rnext) = r->0;
            let (pe, pnext) = spec_parse_record(s@, pos as int)->0;
            re@ == pe && rnext == pnext
        }),
{
    let n = s.unicode_len();
    proof {
        lemma_pow10_field();
    }

    // Sequence number.
    if n - pos < FIELD_WIDTH {
        return None;
    }
    let seqv = match parse_field(s, pos) {
        Some(v) => v,
        None => {
            return None;
        },
    };
    if seqv > u32::MAX as u64 {
        return None;
    }

    // Kind code.
    if n - pos < FIELD_WIDTH + 1 {
        return None;
    }
    let mt = match code_mtype(s.get_char(pos + FIELD_WIDTH)) {
        Some(m) => m,
        None => {
            return None;
        },
    };

    // Operation id.
    if n - (pos + FIELD_WIDTH + 1) < FIELD_WIDTH {
        return None;
    }
    let opv = match parse_field(s, pos + FIELD_WIDTH + 1) {
        Some(v) => v,
        None => {
            return None;
        },
    };
    if opv > u32::MAX as u64 {
        return None;
    }

    // Transaction id.
    if n - (pos + 2 * FIELD_WIDTH + 1) < FIELD_WIDTH {
        return None;
    }
    let tlen64 = match parse_field(s, pos + 2 * FIELD_WIDTH + 1) {
        Some(v) => v,
        None => {
            return None;
        },
    };
    let tpos = pos + 3 * FIELD_WIDTH + 1;
    if ((n - tpos) as u64) < tlen64 {
        return None;
    }
    let tlen = tlen64 as usize;
    let txid = s.substring_char(tpos, tpos + tlen).to_owned();

    // Sender name.
    if n - (tpos + tlen) < FIELD_WIDTH {
        return None;
    }
    let slen64 = match parse_field(s, tpos + tlen) {
        Some(v) => v,
        None => {
            return None;
        },
    };
    let spos = tpos + tlen + FIELD_WIDTH;
    if ((n - spos) as u64) < slen64 {
        return None;
    }
    let slen = slen64 as usize;
    let senderid = s.substring_char(spos, spos + slen).to_owned();

    let entry = LogEntry {
        seqno: seqv as u32,
        msg: ProtocolMessage::generate(mt, txid, senderid, opv as u32),
    };
    Some((entry, spos + slen))
}

/// True when every entry of the journal fits the record format.
pub open spec fn log_encodable(es: Seq<LogEntryView>) -> bool {
    forall|i: int| 0 <= i < es.len() ==> encodable(#[trigger] es[i])
}

/// Renders a whole journal, records in order.
pub fn encode_log(l: &OpLog) -> (r: String)
    requires
        log_encodable(l@),
    ensures
        r@ == encode_log_spec(l@),
{
    let mut s = String::new();
    let mut i: usize = 0;
    let len = l.len();
    proof {
        assert(l@.subrange(0, 0) =~= Seq::<LogEntryView>::empty());
    }
    while i < len
        invariant
            0 <= i <= len,
            len == l@.len(),
            log_encodable(l@),
            s@ == encode_log_spec(l@.subrange(0, i as int)),
        decreases len - i,
    {
        let e = l.get(i);
        let rec = encode_entry(e);
        s.append(rec.as_str());
        proof {
            let pre = l@.subrange(0, i as int);
            let cur = l@.subrange(0, i + 1int);
            assert(cur.drop_last() =~= pre);
            assert(cur.last() == l@[i as int]);
        }
        i = i + 1;
    }
    proof {
        assert(l@.subrange(0, len as int) =~= l@);
    }
    s
}

/// Reads a whole string as a sequence of records.
pub fn decode_log(s: &str) -> (r: Option<Vec<LogEntry>>)
    ensures
        r is Some <==> spec_parse_log_from(s@, 0) is Some,
        r is Some ==> r->0@.map_values(|e: LogEntry| e@) == spec_parse_log_from(s@, 0)->0,
{
    let n = s.unicode_len();
    let mut acc: Vec<LogEntry> = Vec::new();
    let mut pos: usize = 0;
    proof {
        assert(acc@.map_values(|e: LogEntry| e@) =~= Seq::<LogEntryView>::empty());
    }
    while pos < n
        invariant
            0 <= pos <= n,
            n == s@.len(),
            n <= usize::MAX,
            (spec_parse_log_from(s@, 0) == match spec_parse_log_from(s@, pos as int) {
                None => None::<Seq<LogEntryView>>,
                Some(rest) => Some(acc@.map_values(|e: LogEntry| e@) + rest),
            }),
        decreases n - pos,
    {
        match decode_entry(s, pos) {
            None => {
                return None;
            },
            Some((e, next)) => {
                proof {
                    lemma_parse_record_bounds(s@, pos as int);
                    let prev = acc@.map_values(|ent: LogEntry| ent@);
                    assert(prev.push(e@) =~= acc@.push(e).map_values(|ent: LogEntry| ent@));
                    if spec_parse_log_from(s@, next as int) is Some {
                        let rest = spec_parse_log_from(s@, next as int)->0;
                        assert(prev + (seq![e@] + rest) =~= prev.push(e@) + rest);
                    }
                }
                acc.push(e);
                pos = next;
            },
        }
    }
    Some(acc)
}

} // verus!
