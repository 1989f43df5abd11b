//! The journal and its record format: ordering, sequence numbers, and the
//! lossless round trip of encoded records.

use two_phase_commit::codec::{decode_entry, decode_log, encode_entry, encode_log};
use two_phase_commit::message::{MessageType, ProtocolMessage};
use two_phase_commit::oplog::{LogEntry, OpLog};

fn entry(seqno: u32, mtype: MessageType, txid: &str, sender: &str, opid: u32) -> LogEntry {
    LogEntry {
        seqno,
        msg: ProtocolMessage::generate(mtype, txid.to_string(), sender.to_string(), opid),
    }
}

#[test]
fn append_then_read_returns_entries_in_order() {
    let mut log = OpLog::new();
    let kinds = [
        MessageType::ParticipantVoteCommit,
        MessageType::CoordinatorCommit,
        MessageType::CoordinatorAbort,
        MessageType::CoordinatorCommit,
        MessageType::ParticipantVoteCommit,
    ];
    for (i, k) in kinds.iter().enumerate() {
        log.append(
            *k,
            format!("client_1_op_{}", i + 1),
            "participant_0".to_string(),
            (i + 1) as u32,
        );
    }
    let entries = log.read_all();
    assert_eq!(entries.len(), 5);
    for (i, e) in entries.iter().enumerate() {
        assert_eq!(e.seqno as usize, i + 1);
        assert_eq!(e.msg.mtype, kinds[i]);
        assert_eq!(e.msg.txid, format!("client_1_op_{}", i + 1));
        assert_eq!(e.msg.senderid, "participant_0");
        assert_eq!(e.msg.opid, (i + 1) as u32);
    }
}

#[test]
fn record_encoding_has_fixed_width_fields() {
    let e = entry(1, MessageType::CoordinatorCommit, "c1_op_1", "coordinator", 1);
    let s = encode_entry(&e);
    assert_eq!(
        s,
        "0000000001C00000000010000000007c1_op_10000000011coordinator"
    );
}

#[test]
fn record_round_trips_to_an_equal_value() {
    let e = entry(42, MessageType::ParticipantVoteAbort, "client_9_op_13", "participant_2", 13);
    let s = encode_entry(&e);
    let (back, next) = decode_entry(&s, 0).expect("a fresh encoding must decode");
    assert_eq!(next, s.chars().count());
    assert_eq!(back.seqno, 42);
    assert_eq!(back.msg, e.msg);
}

#[test]
fn empty_strings_round_trip() {
    let e = entry(7, MessageType::CoordinatorExit, "", "", 0);
    let s = encode_entry(&e);
    let (back, _) = decode_entry(&s, 0).expect("decodes");
    assert_eq!(back.msg.txid, "");
    assert_eq!(back.msg.senderid, "");
    assert_eq!(back.msg.opid, 0);
}

#[test]
fn corrupt_record_is_refused() {
    let e = entry(1, MessageType::CoordinatorCommit, "c1_op_1", "coordinator", 1);
    let mut s = encode_entry(&e);
    // Truncation loses the sender's tail.
    s.pop();
    assert!(decode_entry(&s, 0).is_none());
    // A non-digit in a numeric field is refused.
    let bad = "00000x0001C00000000010000000007c1_op_10000000011coordinator";
    assert!(decode_entry(bad, 0).is_none());
    // An unknown kind code is refused.
    let bad_kind = "0000000001Z00000000010000000007c1_op_10000000011coordinator";
    assert!(decode_entry(bad_kind, 0).is_none());
}

#[test]
fn whole_journal_round_trips() {
    let mut log = OpLog::new();
    log.append(
        MessageType::ParticipantVoteCommit,
        "client_1_op_1".to_string(),
        "participant_0".to_string(),
        1,
    );
    log.append(
        MessageType::CoordinatorCommit,
        "client_1_op_1".to_string(),
        "participant_0".to_string(),
        1,
    );
    log.append(
        MessageType::CoordinatorAbort,
        "client_1_op_2".to_string(),
        "participant_0".to_string(),
        2,
    );
    let encoded = encode_log(&log);
    let entries = decode_log(&encoded).expect("a fresh journal encoding must decode");
    let reopened = OpLog::from_entries(entries).expect("sequence numbers are 1,2,3");
    assert_eq!(reopened.len(), 3);
    assert_eq!(reopened.get(0).msg.mtype, MessageType::ParticipantVoteCommit);
    assert_eq!(reopened.get(1).msg.mtype, MessageType::CoordinatorCommit);
    assert_eq!(reopened.get(2).msg.mtype, MessageType::CoordinatorAbort);
    assert_eq!(reopened.get(2).msg.txid, "client_1_op_2");
}

#[test]
fn reopened_journal_still_holds_the_commit_decision() {
    // A node's decision survives its process: what was written before the
    // kill is still read back from the same bytes afterwards.
    let mut log = OpLog::new();
    log.append(
        MessageType::ParticipantVoteCommit,
        "client_1_op_1".to_string(),
        "participant_1".to_string(),
        1,
    );
    log.append(
        MessageType::CoordinatorCommit,
        "client_1_op_1".to_string(),
        "participant_1".to_string(),
        1,
    );
    let durable = encode_log(&log);
    drop(log);
    let entries = decode_log(&durable).expect("decodes");
    let commit_present = entries.iter().any(|e| {
        e.msg.mtype == MessageType::CoordinatorCommit && e.msg.txid == "client_1_op_1"
    });
    assert!(commit_present);
}

#[test]
fn misnumbered_entries_are_not_a_journal() {
    let entries = vec![
        entry(1, MessageType::CoordinatorCommit, "t", "n", 1),
        entry(3, MessageType::CoordinatorAbort, "t2", "n", 2),
    ];
    assert!(OpLog::from_entries(entries).is_none());
}
