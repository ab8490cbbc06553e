use multisig_governance::dispute::{DisputeError, DisputeResolutionCourt, DisputeState};

const DISPUTER: u64 = 21;
const RESPONDENT: u64 = 22;
const ARBITER: u64 = 30;

#[test]
fn initiate_records_an_active_dispute() {
    let mut court = DisputeResolutionCourt::new();
    assert_eq!(court.initiate_dispute(5, DISPUTER, true), Ok(true));
    let d = court.get(5).unwrap();
    assert_eq!(d.id, 5);
    assert_eq!(d.disputer, DISPUTER);
    assert_eq!(d.state, DisputeState::Active);
    assert_eq!(d.verdict, None);
    assert!(d.evidence.is_empty());
}

#[test]
fn initiate_requires_identity_proof() {
    let mut court = DisputeResolutionCourt::new();
    assert_eq!(court.initiate_dispute(5, DISPUTER, false), Err(DisputeError::Unauthorized));
    assert!(court.get(5).is_none());
}

#[test]
fn an_active_dispute_cannot_be_reopened() {
    let mut court = DisputeResolutionCourt::new();
    assert_eq!(court.initiate_dispute(5, DISPUTER, true), Ok(true));
    assert_eq!(court.initiate_dispute(5, RESPONDENT, true), Err(DisputeError::DuplicateDispute));
    assert_eq!(court.get(5).unwrap().disputer, DISPUTER);
}

#[test]
fn evidence_accumulates_in_submission_order() {
    let mut court = DisputeResolutionCourt::new();
    assert_eq!(court.initiate_dispute(5, DISPUTER, true), Ok(true));
    assert_eq!(court.submit_evidence(5, 111, DISPUTER, true), Ok(()));
    assert_eq!(court.submit_evidence(5, 222, RESPONDENT, true), Ok(()));
    assert_eq!(court.get(5).unwrap().evidence, vec![111, 222]);
}

#[test]
fn evidence_requires_identity_proof_and_a_known_dispute() {
    let mut court = DisputeResolutionCourt::new();
    assert_eq!(court.submit_evidence(5, 111, DISPUTER, false), Err(DisputeError::Unauthorized));
    assert_eq!(court.submit_evidence(5, 111, DISPUTER, true), Err(DisputeError::UnknownDispute));
}

#[test]
fn adjudication_resolves_with_the_awarded_split() {
    let mut court = DisputeResolutionCourt::new();
    assert_eq!(court.initiate_dispute(5, DISPUTER, true), Ok(true));
    assert_eq!(court.adjudicate(5, 60, ARBITER, true), Ok(()));
    let d = court.get(5).unwrap();
    assert_eq!(d.state, DisputeState::Resolved);
    assert_eq!(d.verdict, Some(60));
}

#[test]
fn split_ratio_above_hundred_is_rejected() {
    let mut court = DisputeResolutionCourt::new();
    assert_eq!(court.initiate_dispute(5, DISPUTER, true), Ok(true));
    assert_eq!(court.adjudicate(5, 101, ARBITER, true), Err(DisputeError::InvalidSplitRatio));
    assert_eq!(court.get(5).unwrap().state, DisputeState::Active);
}

#[test]
fn boundary_split_ratios_are_accepted() {
    let mut court = DisputeResolutionCourt::new();
    assert_eq!(court.initiate_dispute(5, DISPUTER, true), Ok(true));
    assert_eq!(court.adjudicate(5, 0, ARBITER, true), Ok(()));
    assert_eq!(court.initiate_dispute(6, DISPUTER, true), Ok(true));
    assert_eq!(court.adjudicate(6, 100, ARBITER, true), Ok(()));
    assert_eq!(court.get(5).unwrap().verdict, Some(0));
    assert_eq!(court.get(6).unwrap().verdict, Some(100));
}

#[test]
fn a_resolved_dispute_is_terminal() {
    let mut court = DisputeResolutionCourt::new();
    assert_eq!(court.initiate_dispute(5, DISPUTER, true), Ok(true));
    assert_eq!(court.adjudicate(5, 50, ARBITER, true), Ok(()));
    assert_eq!(court.adjudicate(5, 70, ARBITER, true), Err(DisputeError::AlreadyResolved));
    assert_eq!(court.submit_evidence(5, 333, DISPUTER, true), Err(DisputeError::AlreadyResolved));
    let d = court.get(5).unwrap();
    assert_eq!(d.verdict, Some(50));
    assert!(d.evidence.is_empty());
}

#[test]
fn a_resolved_id_can_be_disputed_anew() {
    let mut court = DisputeResolutionCourt::new();
    assert_eq!(court.initiate_dispute(5, DISPUTER, true), Ok(true));
    assert_eq!(court.adjudicate(5, 50, ARBITER, true), Ok(()));
    assert_eq!(court.initiate_dispute(5, RESPONDENT, true), Ok(true));
    let d = court.get(5).unwrap();
    assert_eq!(d.disputer, RESPONDENT);
    assert_eq!(d.state, DisputeState::Active);
    assert_eq!(d.verdict, None);
}

#[test]
fn adjudicate_unknown_dispute_fails() {
    let mut court = DisputeResolutionCourt::new();
    assert_eq!(court.adjudicate(5, 50, ARBITER, true), Err(DisputeError::UnknownDispute));
    assert_eq!(court.adjudicate(5, 101, ARBITER, true), Err(DisputeError::InvalidSplitRatio));
    assert_eq!(court.adjudicate(5, 50, ARBITER, false), Err(DisputeError::Unauthorized));
}
