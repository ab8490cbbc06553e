use multisig_governance::engine::{ApprovalOutcome, MultisigGovernance};
use multisig_governance::errors::GovError;
use multisig_governance::action::ActionStatus;
use multisig_governance::policy::ThresholdPolicy;
use multisig_governance::registry::Signer;

const OWNER: u64 = 1;
const SIGNER_A: u64 = 2;
const SIGNER_B: u64 = 3;
const OUTSIDER: u64 = 9;

fn two_of_three() -> MultisigGovernance {
    let mut e = MultisigGovernance::new();
    let signers = vec![
        Signer { identity: SIGNER_A, weight: 1 },
        Signer { identity: SIGNER_B, weight: 1 },
    ];
    let policy = ThresholdPolicy { low: 0, medium: 2, high: 2 };
    let r = e.configure_multisig(OWNER, true, 1, signers, policy);
    assert_eq!(r, Ok(()));
    e
}

#[test]
fn configure_installs_signers_and_policy() {
    let e = two_of_three();
    assert!(e.is_signer(OWNER));
    assert!(e.is_signer(SIGNER_A));
    assert!(e.is_signer(SIGNER_B));
    assert!(!e.is_signer(OUTSIDER));
    assert_eq!(e.weight_of(OWNER), 1);
    assert_eq!(e.weight_of(SIGNER_A), 1);
    assert_eq!(e.weight_of(SIGNER_B), 1);
    assert_eq!(e.weight_of(OUTSIDER), 0);
    assert_eq!(e.required_weight(), 2);
}

#[test]
fn configure_requires_identity_proof() {
    let mut e = MultisigGovernance::new();
    let r = e.configure_multisig(
        OWNER,
        false,
        1,
        vec![Signer { identity: SIGNER_A, weight: 1 }],
        ThresholdPolicy { low: 0, medium: 2, high: 2 },
    );
    assert_eq!(r, Err(GovError::Unauthorized));
    assert!(!e.is_signer(OWNER));
}

#[test]
fn configure_rejects_non_monotonic_thresholds() {
    let mut e = MultisigGovernance::new();
    let r = e.configure_multisig(
        OWNER,
        true,
        1,
        vec![Signer { identity: SIGNER_A, weight: 1 }],
        ThresholdPolicy { low: 0, medium: 3, high: 2 },
    );
    assert_eq!(r, Err(GovError::InvalidPolicy));
    assert!(!e.is_signer(OWNER));
}

#[test]
fn bad_reconfiguration_leaves_prior_state_untouched() {
    let mut e = two_of_three();
    let r = e.configure_multisig(
        OWNER,
        true,
        5,
        vec![Signer { identity: OUTSIDER, weight: 5 }],
        ThresholdPolicy { low: 0, medium: 3, high: 2 },
    );
    assert_eq!(r, Err(GovError::InvalidPolicy));
    assert_eq!(e.weight_of(OWNER), 1);
    assert!(e.is_signer(SIGNER_A));
    assert!(e.is_signer(SIGNER_B));
    assert!(!e.is_signer(OUTSIDER));
    assert_eq!(e.required_weight(), 2);
}

#[test]
fn repeated_identity_is_overridden_by_the_later_entry() {
    // The signer list is an ordered mapping: listing an identity again
    // re-assigns its weight rather than failing the configuration.
    let mut e = MultisigGovernance::new();
    let r = e.configure_multisig(
        OWNER,
        true,
        1,
        vec![
            Signer { identity: SIGNER_A, weight: 1 },
            Signer { identity: SIGNER_A, weight: 2 },
        ],
        ThresholdPolicy { low: 0, medium: 2, high: 2 },
    );
    assert_eq!(r, Ok(()));
    assert!(e.is_signer(SIGNER_A));
    assert_eq!(e.weight_of(SIGNER_A), 2);
    assert_eq!(e.weight_of(OWNER), 1);
}

#[test]
fn owner_entry_overrides_the_master_weight() {
    let mut e = MultisigGovernance::new();
    let r = e.configure_multisig(
        OWNER,
        true,
        1,
        vec![Signer { identity: OWNER, weight: 5 }],
        ThresholdPolicy { low: 0, medium: 2, high: 2 },
    );
    assert_eq!(r, Ok(()));
    assert_eq!(e.weight_of(OWNER), 5);
    // The owner alone now outweighs the medium threshold: fast path.
    assert_eq!(e.propose(OWNER, true, 42, 100, 7), Ok(ApprovalOutcome::Executed));
}

#[test]
fn reconfiguration_is_gated_by_the_owner() {
    let mut e = two_of_three();
    let r = e.configure_multisig(
        SIGNER_A,
        true,
        1,
        vec![Signer { identity: SIGNER_B, weight: 1 }],
        ThresholdPolicy { low: 0, medium: 1, high: 1 },
    );
    assert_eq!(r, Err(GovError::Unauthorized));
    assert_eq!(e.required_weight(), 2);
}

#[test]
fn reconfiguration_rejects_pending_actions() {
    let mut e = two_of_three();
    assert_eq!(e.propose(OWNER, true, 10, 500, 1), Ok(ApprovalOutcome::Pending(1)));
    assert_eq!(e.countersign(SIGNER_A, true, 10), Ok(ApprovalOutcome::Executed));
    assert_eq!(e.propose(OWNER, true, 11, 700, 64), Ok(ApprovalOutcome::Pending(1)));
    let r = e.configure_multisig(
        OWNER,
        true,
        1,
        vec![Signer { identity: SIGNER_A, weight: 1 }],
        ThresholdPolicy { low: 0, medium: 2, high: 2 },
    );
    assert_eq!(r, Ok(()));
    // The executed action is kept; the still-proposed one is invalidated.
    assert_eq!(e.get(10).unwrap().status, ActionStatus::Executed);
    let rejected = e.get(11).unwrap();
    assert_eq!(rejected.status, ActionStatus::Rejected);
    assert_eq!(rejected.accumulated_weight, 1);
    assert_eq!(rejected.payload, 700);
    assert_eq!(rejected.created_at, 64);
}

#[test]
fn proposer_weight_is_pre_applied() {
    let mut e = two_of_three();
    let r = e.propose(OWNER, true, 42, 100, 77);
    assert_eq!(r, Ok(ApprovalOutcome::Pending(1)));
    let a = e.get(42).unwrap();
    assert_eq!(a.id, 42);
    assert_eq!(a.proposer, OWNER);
    assert_eq!(a.payload, 100);
    assert_eq!(a.accumulated_weight, 1);
    assert_eq!(a.signed_by, vec![OWNER]);
    assert_eq!(a.status, ActionStatus::Proposed);
    assert_eq!(a.created_at, 77);
}

#[test]
fn propose_requires_identity_proof() {
    let mut e = two_of_three();
    assert_eq!(e.propose(OWNER, false, 42, 100, 1), Err(GovError::Unauthorized));
    assert!(e.get(42).is_none());
}

#[test]
fn propose_by_non_signer_fails_and_creates_no_entry() {
    let mut e = two_of_three();
    assert_eq!(e.propose(OUTSIDER, true, 42, 100, 1), Err(GovError::NotASigner));
    assert!(e.get(42).is_none());
}

#[test]
fn propose_on_unconfigured_engine_fails() {
    let mut e = MultisigGovernance::new();
    assert_eq!(e.propose(OWNER, true, 42, 100, 1), Err(GovError::NotASigner));
    assert!(e.get(42).is_none());
}

#[test]
fn single_signer_fast_path_executes_immediately() {
    let mut e = MultisigGovernance::new();
    let r = e.configure_multisig(
        OWNER,
        true,
        2,
        vec![Signer { identity: SIGNER_A, weight: 1 }],
        ThresholdPolicy { low: 0, medium: 2, high: 2 },
    );
    assert_eq!(r, Ok(()));
    assert_eq!(e.propose(OWNER, true, 42, 100, 1), Ok(ApprovalOutcome::Executed));
    assert_eq!(e.get(42).unwrap().status, ActionStatus::Executed);
}

#[test]
fn two_of_three_approval_scenario() {
    // Policy {low: 0, medium: 2, high: 2}, three signers of weight 1 each:
    // the proposer alone leaves the action pending at weight 1, one
    // countersignature executes it, a third attempt is rejected.
    let mut e = two_of_three();
    assert_eq!(e.propose(OWNER, true, 42, 100, 9000), Ok(ApprovalOutcome::Pending(1)));
    assert_eq!(e.get(42).unwrap().accumulated_weight, 1);
    assert_eq!(e.get(42).unwrap().status, ActionStatus::Proposed);
    assert_eq!(e.countersign(SIGNER_A, true, 42), Ok(ApprovalOutcome::Executed));
    assert_eq!(e.get(42).unwrap().accumulated_weight, 2);
    assert_eq!(e.get(42).unwrap().status, ActionStatus::Executed);
    // The creation marker set at proposal time is never changed.
    assert_eq!(e.get(42).unwrap().created_at, 9000);
    assert_eq!(e.countersign(SIGNER_B, true, 42), Err(GovError::AlreadyFinalized));
    assert_eq!(e.get(42).unwrap().accumulated_weight, 2);
}

#[test]
fn countersign_requires_identity_proof() {
    let mut e = two_of_three();
    assert_eq!(e.propose(OWNER, true, 42, 100, 1), Ok(ApprovalOutcome::Pending(1)));
    assert_eq!(e.countersign(SIGNER_A, false, 42), Err(GovError::Unauthorized));
    assert_eq!(e.get(42).unwrap().accumulated_weight, 1);
}

#[test]
fn countersign_by_non_signer_fails() {
    let mut e = two_of_three();
    assert_eq!(e.propose(OWNER, true, 42, 100, 1), Ok(ApprovalOutcome::Pending(1)));
    assert_eq!(e.countersign(OUTSIDER, true, 42), Err(GovError::NotASigner));
    assert_eq!(e.get(42).unwrap().accumulated_weight, 1);
}

#[test]
fn countersign_unknown_action_fails() {
    let mut e = two_of_three();
    assert_eq!(e.countersign(SIGNER_A, true, 42), Err(GovError::UnknownAction));
}

#[test]
fn duplicate_signature_adds_no_weight() {
    let mut e = MultisigGovernance::new();
    let r = e.configure_multisig(
        OWNER,
        true,
        1,
        vec![
            Signer { identity: SIGNER_A, weight: 1 },
            Signer { identity: SIGNER_B, weight: 1 },
        ],
        ThresholdPolicy { low: 0, medium: 3, high: 3 },
    );
    assert_eq!(r, Ok(()));
    assert_eq!(e.propose(OWNER, true, 42, 100, 1), Ok(ApprovalOutcome::Pending(1)));
    // The proposer's own signature is already counted.
    assert_eq!(e.countersign(OWNER, true, 42), Err(GovError::DuplicateSignature));
    assert_eq!(e.get(42).unwrap().accumulated_weight, 1);
    assert_eq!(e.countersign(SIGNER_A, true, 42), Ok(ApprovalOutcome::Pending(2)));
    assert_eq!(e.countersign(SIGNER_A, true, 42), Err(GovError::DuplicateSignature));
    assert_eq!(e.get(42).unwrap().accumulated_weight, 2);
    assert_eq!(e.get(42).unwrap().status, ActionStatus::Proposed);
}

#[test]
fn live_id_cannot_be_reproposed() {
    let mut e = two_of_three();
    assert_eq!(e.propose(OWNER, true, 42, 100, 1), Ok(ApprovalOutcome::Pending(1)));
    assert_eq!(e.propose(SIGNER_A, true, 42, 999, 1), Err(GovError::DuplicateProposal));
    // The original proposal is untouched.
    let a = e.get(42).unwrap();
    assert_eq!(a.proposer, OWNER);
    assert_eq!(a.payload, 100);
}

#[test]
fn terminal_id_is_reusable() {
    let mut e = two_of_three();
    assert_eq!(e.propose(OWNER, true, 42, 100, 5), Ok(ApprovalOutcome::Pending(1)));
    assert_eq!(e.countersign(SIGNER_A, true, 42), Ok(ApprovalOutcome::Executed));
    let r = e.propose(SIGNER_B, true, 42, 250, 6);
    assert_eq!(r, Ok(ApprovalOutcome::Pending(1)));
    let a = e.get(42).unwrap();
    assert_eq!(a.proposer, SIGNER_B);
    assert_eq!(a.payload, 250);
    assert_eq!(a.status, ActionStatus::Proposed);
    assert_eq!(a.signed_by, vec![SIGNER_B]);
    assert_eq!(a.created_at, 6);
}

#[test]
fn weights_accumulate_across_distinct_signers() {
    let mut e = MultisigGovernance::new();
    let r = e.configure_multisig(
        OWNER,
        true,
        1,
        vec![
            Signer { identity: SIGNER_A, weight: 2 },
            Signer { identity: SIGNER_B, weight: 3 },
        ],
        ThresholdPolicy { low: 0, medium: 6, high: 6 },
    );
    assert_eq!(r, Ok(()));
    assert_eq!(e.propose(OWNER, true, 7, 1, 1), Ok(ApprovalOutcome::Pending(1)));
    assert_eq!(e.countersign(SIGNER_A, true, 7), Ok(ApprovalOutcome::Pending(3)));
    assert_eq!(e.countersign(SIGNER_B, true, 7), Ok(ApprovalOutcome::Executed));
    let a = e.get(7).unwrap();
    assert_eq!(a.accumulated_weight, 6);
    assert_eq!(a.signed_by, vec![OWNER, SIGNER_A, SIGNER_B]);
}

#[test]
fn zero_weight_signer_never_contributes() {
    let mut e = MultisigGovernance::new();
    let r = e.configure_multisig(
        OWNER,
        true,
        1,
        vec![Signer { identity: SIGNER_A, weight: 0 }],
        ThresholdPolicy { low: 0, medium: 2, high: 2 },
    );
    assert_eq!(r, Ok(()));
    assert_eq!(e.propose(OWNER, true, 42, 100, 1), Ok(ApprovalOutcome::Pending(1)));
    assert_eq!(e.countersign(SIGNER_A, true, 42), Ok(ApprovalOutcome::Pending(1)));
    assert_eq!(e.get(42).unwrap().status, ActionStatus::Proposed);
}

#[test]
fn queries_are_idempotent() {
    let mut e = two_of_three();
    assert_eq!(e.propose(OWNER, true, 42, 100, 1), Ok(ApprovalOutcome::Pending(1)));
    for _ in 0..3 {
        assert_eq!(e.weight_of(SIGNER_A), 1);
        assert_eq!(e.weight_of(OUTSIDER), 0);
        assert!(e.is_signer(SIGNER_B));
        let a = e.get(42).unwrap();
        assert_eq!(a.accumulated_weight, 1);
        assert_eq!(a.status, ActionStatus::Proposed);
        assert!(e.get(43).is_none());
    }
    // The observed state is unchanged by any number of queries.
    assert_eq!(e.countersign(SIGNER_A, true, 42), Ok(ApprovalOutcome::Executed));
}
