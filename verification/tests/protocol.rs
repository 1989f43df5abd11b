//! Unit-level behavior of the three node state machines: message building,
//! vote counting, the decision rule, registration, and status lines.

use two_phase_commit::client::{classify_result, Client, TxOutcome};
use two_phase_commit::coordinator::{Coordinator, CoordinatorState, RegistrationError};
use two_phase_commit::message::{MessageType, ProtocolMessage};
use two_phase_commit::participant::{DecisionOutcome, Participant, ParticipantState};

#[test]
fn client_request_carries_its_txid_and_opid() {
    let mut c = Client::new("client_7".to_string());
    let m1 = c.send_next_operation();
    assert_eq!(m1.mtype, MessageType::ClientRequest);
    assert_eq!(m1.txid, "client_7_op_1");
    assert_eq!(m1.senderid, "client_7");
    assert_eq!(m1.opid, 1);
    c.apply_outcome(TxOutcome::Commit);
    let m2 = c.send_next_operation();
    assert_eq!(m2.txid, "client_7_op_2");
    assert_eq!(m2.opid, 2);
    assert_eq!(c.num_requests, 2);
}

#[test]
fn classify_result_maps_each_reply() {
    let mk = |mt| ProtocolMessage::generate(mt, "t".to_string(), "coordinator".to_string(), 1);
    assert_eq!(classify_result(&mk(MessageType::ClientResultCommit)), Some(TxOutcome::Commit));
    assert_eq!(classify_result(&mk(MessageType::ClientResultAbort)), Some(TxOutcome::Abort));
    assert_eq!(classify_result(&mk(MessageType::CoordinatorExit)), Some(TxOutcome::Unknown));
    assert_eq!(classify_result(&mk(MessageType::CoordinatorPropose)), None);
}

#[test]
fn client_tallies_sum_to_issued_requests() {
    let mut c = Client::new("client_1".to_string());
    let outcomes = [
        TxOutcome::Commit,
        TxOutcome::Abort,
        TxOutcome::Unknown,
        TxOutcome::Commit,
        TxOutcome::Commit,
    ];
    for o in outcomes {
        let _ = c.send_next_operation();
        c.apply_outcome(o);
    }
    assert_eq!(c.successful_ops, 3);
    assert_eq!(c.failed_ops, 1);
    assert_eq!(c.unknown_ops, 1);
    assert_eq!(c.successful_ops + c.failed_ops + c.unknown_ops, c.num_requests as u64);
}

#[test]
fn status_lines_match_the_report_format() {
    let mut c = Client::new("client_0".to_string());
    let _ = c.send_next_operation();
    c.apply_outcome(TxOutcome::Commit);
    assert_eq!(c.status_line(), "client_0:\tC:1\tA:0\tU:0");

    let coord = Coordinator::new();
    assert_eq!(coord.status_line(), "coordinator:\tC:0\tA:0\tU:0");

    let p = Participant::new("participant_3".to_string());
    assert_eq!(p.status_line(), "participant_3:\tC:0\tA:0\tU:0");
}

#[test]
fn registration_is_refused_outside_quiescence() {
    let mut coord = Coordinator::new();
    coord.participant_join(&"participant_0".to_string()).unwrap();
    coord.client_join(&"client_0".to_string()).unwrap();

    // The first accepted request moves the coordinator out of Quiescent;
    // joining afterwards must fail loudly.
    let req = ProtocolMessage::generate(
        MessageType::ClientRequest,
        "client_0_op_1".to_string(),
        "client_0".to_string(),
        1,
    );
    let txn = coord.accept_request(&req, &"client_0".to_string());
    assert!(txn.is_some());
    assert_eq!(coord.state, CoordinatorState::ReceivedRequest);
    assert_eq!(
        coord.participant_join(&"participant_1".to_string()),
        Err(RegistrationError::NotQuiescent)
    );
    assert_eq!(
        coord.client_join(&"client_1".to_string()),
        Err(RegistrationError::NotQuiescent)
    );
}

#[test]
fn duplicate_names_are_refused() {
    let mut coord = Coordinator::new();
    coord.participant_join(&"participant_0".to_string()).unwrap();
    assert_eq!(
        coord.participant_join(&"participant_0".to_string()),
        Err(RegistrationError::DuplicateName)
    );
    coord.client_join(&"client_0".to_string()).unwrap();
    assert_eq!(
        coord.client_join(&"client_0".to_string()),
        Err(RegistrationError::DuplicateName)
    );
}

#[test]
fn non_requests_are_discarded_at_pickup() {
    let mut coord = Coordinator::new();
    let stray = ProtocolMessage::generate(
        MessageType::ParticipantVoteCommit,
        "client_0_op_1".to_string(),
        "participant_0".to_string(),
        1,
    );
    assert!(coord.accept_request(&stray, &"client_0".to_string()).is_none());
    assert_eq!(coord.state, CoordinatorState::Quiescent);
}

#[test]
fn votes_count_only_for_the_current_transaction() {
    let mut coord = Coordinator::new();
    coord.client_join(&"client_0".to_string()).unwrap();
    let req = ProtocolMessage::generate(
        MessageType::ClientRequest,
        "client_0_op_1".to_string(),
        "client_0".to_string(),
        1,
    );
    let mut txn = coord.accept_request(&req, &"client_0".to_string()).unwrap();

    let vote = |mt, txid: &str| {
        ProtocolMessage::generate(mt, txid.to_string(), "participant_0".to_string(), 1)
    };
    txn.record_vote(&vote(MessageType::ParticipantVoteCommit, "client_0_op_1"));
    // A stale vote of another transaction is discarded.
    txn.record_vote(&vote(MessageType::ParticipantVoteCommit, "client_9_op_9"));
    // A non-vote with the right txid is discarded.
    txn.record_vote(&vote(MessageType::CoordinatorPropose, "client_0_op_1"));
    txn.record_vote(&vote(MessageType::ParticipantVoteAbort, "client_0_op_1"));
    assert_eq!(txn.votes_commit, 1);
    assert_eq!(txn.votes_abort, 1);
}

#[test]
fn collection_stops_on_each_cause() {
    let mut coord = Coordinator::new();
    coord.client_join(&"client_0".to_string()).unwrap();
    let req = ProtocolMessage::generate(
        MessageType::ClientRequest,
        "client_0_op_1".to_string(),
        "client_0".to_string(),
        1,
    );
    let mut txn = coord.accept_request(&req, &"client_0".to_string()).unwrap();
    assert!(!txn.collection_done(2, false, false));
    assert!(txn.collection_done(2, true, false));
    assert!(txn.collection_done(2, false, true));
    assert!(txn.collection_done(0, false, false));
    txn.record_vote(&ProtocolMessage::generate(
        MessageType::ParticipantVoteAbort,
        "client_0_op_1".to_string(),
        "participant_0".to_string(),
        1,
    ));
    assert!(txn.collection_done(2, false, false));
}

#[test]
fn decision_is_logged_before_it_is_returned() {
    let mut coord = Coordinator::new();
    coord.participant_join(&"participant_0".to_string()).unwrap();
    coord.client_join(&"client_0".to_string()).unwrap();
    let req = ProtocolMessage::generate(
        MessageType::ClientRequest,
        "client_0_op_1".to_string(),
        "client_0".to_string(),
        1,
    );
    let mut txn = coord.accept_request(&req, &"client_0".to_string()).unwrap();
    let prop = coord.make_proposal(&txn);
    assert_eq!(prop.mtype, MessageType::CoordinatorPropose);
    assert_eq!(prop.senderid, "coordinator");
    assert_eq!(coord.state, CoordinatorState::ProposalSent);

    txn.record_vote(&ProtocolMessage::generate(
        MessageType::ParticipantVoteCommit,
        "client_0_op_1".to_string(),
        "participant_0".to_string(),
        1,
    ));
    let (decision, reply) = coord.finish_transaction(&txn, 1);
    assert_eq!(decision.mtype, MessageType::CoordinatorCommit);
    assert_eq!(reply.mtype, MessageType::ClientResultCommit);
    assert_eq!(coord.state, CoordinatorState::ReceivedVotesCommit);
    let entries = coord.log.read_all();
    assert_eq!(entries.len(), 1);
    assert_eq!(entries[0].msg.mtype, MessageType::CoordinatorCommit);
    assert_eq!(entries[0].msg.txid, "client_0_op_1");
    assert_eq!(coord.successful_ops, 1);
    coord.note_decision_sent();
    assert_eq!(coord.state, CoordinatorState::SentGlobalDecision);
}

#[test]
fn missing_votes_abort_the_transaction() {
    let mut coord = Coordinator::new();
    coord.client_join(&"client_0".to_string()).unwrap();
    let req = ProtocolMessage::generate(
        MessageType::ClientRequest,
        "client_0_op_1".to_string(),
        "client_0".to_string(),
        1,
    );
    let txn = coord.accept_request(&req, &"client_0".to_string()).unwrap();
    // Two participants registered in spirit, no vote arrived: timeout aborts.
    let (decision, reply) = coord.finish_transaction(&txn, 2);
    assert_eq!(decision.mtype, MessageType::CoordinatorAbort);
    assert_eq!(reply.mtype, MessageType::ClientResultAbort);
    assert_eq!(coord.failed_ops, 1);
    assert_eq!(coord.successful_ops, 0);
}

#[test]
fn participant_votes_and_applies_the_decision() {
    let mut p = Participant::new("participant_0".to_string());
    let prop = ProtocolMessage::generate(
        MessageType::CoordinatorPropose,
        "client_0_op_1".to_string(),
        "coordinator".to_string(),
        1,
    );
    let vote = p.handle_proposal(&prop, true);
    assert_eq!(vote.mtype, MessageType::ParticipantVoteCommit);
    assert_eq!(vote.txid, "client_0_op_1");
    assert_eq!(vote.senderid, "participant_0");
    assert_eq!(p.state, ParticipantState::VotedCommit);
    // The commit vote was logged before the send.
    assert_eq!(p.log.read_all().len(), 1);
    assert_eq!(p.log.read_all()[0].msg.mtype, MessageType::ParticipantVoteCommit);
    p.vote_dispatched();
    assert_eq!(p.state, ParticipantState::AwaitingGlobalDecision);

    // A stale decision is discarded.
    let stale = ProtocolMessage::generate(
        MessageType::CoordinatorCommit,
        "client_9_op_9".to_string(),
        "coordinator".to_string(),
        9,
    );
    assert_eq!(
        p.handle_decision(&"client_0_op_1".to_string(), 1, &stale),
        DecisionOutcome::Ignored
    );

    let decision = ProtocolMessage::generate(
        MessageType::CoordinatorCommit,
        "client_0_op_1".to_string(),
        "coordinator".to_string(),
        1,
    );
    assert_eq!(
        p.handle_decision(&"client_0_op_1".to_string(), 1, &decision),
        DecisionOutcome::Committed
    );
    assert_eq!(p.state, ParticipantState::Quiescent);
    assert_eq!(p.successful_ops, 1);
    assert_eq!(p.log.read_all().len(), 2);
    assert_eq!(p.log.read_all()[1].msg.mtype, MessageType::CoordinatorCommit);
}

#[test]
fn failed_operation_votes_abort_without_logging() {
    let mut p = Participant::new("participant_0".to_string());
    let prop = ProtocolMessage::generate(
        MessageType::CoordinatorPropose,
        "client_0_op_1".to_string(),
        "coordinator".to_string(),
        1,
    );
    let vote = p.handle_proposal(&prop, false);
    assert_eq!(vote.mtype, MessageType::ParticipantVoteAbort);
    assert_eq!(p.state, ParticipantState::VotedAbort);
    assert_eq!(p.log.read_all().len(), 0);
}

#[test]
fn decision_wait_timeout_and_exit_leave_the_outcome_unknown() {
    let mut p = Participant::new("participant_0".to_string());
    let prop = ProtocolMessage::generate(
        MessageType::CoordinatorPropose,
        "client_0_op_1".to_string(),
        "coordinator".to_string(),
        1,
    );
    let _ = p.handle_proposal(&prop, true);
    p.vote_dispatched();
    p.decision_timeout();
    assert_eq!(p.unknown_ops, 1);
    assert_eq!(p.state, ParticipantState::Quiescent);

    let _ = p.handle_proposal(&prop, true);
    p.vote_dispatched();
    let exit = Coordinator::exit_message();
    assert_eq!(exit.mtype, MessageType::CoordinatorExit);
    assert_eq!(exit.txid, "exit");
    assert_eq!(exit.senderid, "coordinator");
    assert_eq!(
        p.handle_decision(&"client_0_op_1".to_string(), 1, &exit),
        DecisionOutcome::ExitSeen
    );
    assert_eq!(p.unknown_ops, 2);
}
