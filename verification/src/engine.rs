//! The approval engine: orchestrates propose, countersign and the
//! execute/reject transitions, enforcing the policy and registry invariants.

use vstd::prelude::*;

use crate::action::{copy_ids, ActionStatus, PendingAction, PendingActionStore};
use crate::errors::GovError;
use crate::policy::{ActionClass, ThresholdPolicy};
use crate::registry::{configured_is_signer, configured_weight, Signer, SignerRegistry};

verus! {

/// The outcome of a successful propose or countersign call.
#[derive(Clone, Copy, Debug, PartialEq, Eq, Structural)]
pub enum ApprovalOutcome {
    /// The accumulated weight met the required threshold; the action was
    /// reported as executed.
    Executed,
    /// The action stays pending, with the accumulated weight so far.
    Pending(u128),
}

/// Relates an action before a re-configuration to the same entry after it:
/// terminal actions are kept as they are, and still-proposed ones are moved
/// to `Rejected` unchanged in every other field, so no stale weight can
/// execute under the new policy.
pub open spec fn invalidated_or_kept(oa: PendingAction, na: PendingAction) -> bool {
    if oa.is_terminal_spec() {
        na == oa
    } else {
        na.id == oa.id && na.proposer == oa.proposer && na.payload == oa.payload
            && na.accumulated_weight == oa.accumulated_weight && na.signed_by == oa.signed_by
            && na.created_at == oa.created_at && na.status == ActionStatus::Rejected
    }
}

/// The registry and policy installed by one configuration call; replaced
/// only as a whole.
pub struct GovernanceConfig {
    pub registry: SignerRegistry,
    pub policy: ThresholdPolicy,
}

/// Total weight, under `reg`, of the identities in `ids`.
pub open spec fn sum_weights(reg: SignerRegistry, ids: Seq<u64>) -> int
    decreases ids.len(),
{
    if ids.len() == 0 {
        0
    } else {
        sum_weights(reg, ids.drop_last()) + reg.weight_spec(ids.last())
    }
}

/// A sum of weights is non-negative and at most one maximal weight per
/// listed identity.
pub proof fn lemma_sum_weights_bound(reg: SignerRegistry, ids: Seq<u64>)
    ensures
        0 <= sum_weights(reg, ids) <= ids.len() * (u64::MAX as int),
    decreases ids.len(),
{
    if ids.len() > 0 {
        lemma_sum_weights_bound(reg, ids.drop_last());
    }
}

/// The weighted multi-signature governance engine. Holds the configured
/// registry and policy, and the store of pending actions.
pub struct MultisigGovernance {
    /// `None` until the first successful configuration; while unconfigured
    /// nobody is a signer, so nothing can be proposed.
    pub config: Option<GovernanceConfig>,
    pub store: PendingActionStore,
}

impl MultisigGovernance {
    /// The required threshold for the single governed action class; zero
    /// while unconfigured (never consulted then, since nothing can be
    /// proposed).
    pub open spec fn required_spec(self) -> u64 {
        match self.config {
            Some(c) => c.policy.required_weight_spec(ActionClass::SensitiveTransfer),
            None => 0,
        }
    }

    /// Holds exactly when `id` is an authorized signer under the current
    /// configuration.
    pub open spec fn is_signer_spec(self, id: u64) -> bool {
        match self.config {
            Some(c) => c.registry.is_signer_spec(id),
            None => false,
        }
    }

    /// The weight of `id` under the current configuration; zero for
    /// non-signers.
    pub open spec fn weight_spec(self, id: u64) -> u64 {
        match self.config {
            Some(c) => c.registry.weight_spec(id),
            None => 0,
        }
    }

    /// The action stored under `action_id`, if any.
    pub open spec fn get_spec(self, action_id: u64) -> Option<PendingAction> {
        self.store.get_spec(action_id)
    }

    /// What the engine guarantees of every action it holds: countersigners
    /// are distinct, and a still-proposed action draws its accumulated
    /// weight exactly from the current registry and sits strictly below the
    /// required threshold.
    pub open spec fn action_wf(self, a: PendingAction) -> bool {
        &&& a.signers_distinct()
        &&& a.status == ActionStatus::Proposed ==> {
            &&& self.config is Some
            &&& a.signed_by@.len() >= 1
            &&& forall|k: int|
                0 <= k < a.signed_by@.len() ==> self.is_signer_spec(#[trigger] a.signed_by@[k])
            &&& a.accumulated_weight as int == sum_weights(
                match self.config {
                    Some(c) => c.registry,
                    None => arbitrary(),
                },
                a.signed_by@,
            )
            &&& (a.accumulated_weight as int) < self.required_spec() as int
        }
    }

    /// The engine's invariant: established by `new`, preserved by every
    /// operation.
    pub open spec fn wf(self) -> bool {
        &&& self.store.ids_distinct()
        &&& match self.config {
            Some(c) => c.registry.wf() && c.policy.wf(),
            None => self.store.actions@.len() == 0,
        }
        &&& forall|i: int|
            0 <= i < self.store.actions@.len() ==> self.action_wf(
                #[trigger] self.store.actions@[i],
            )
    }

    /// An unconfigured engine with no pending actions.
    pub fn new() -> (e: Self)
        ensures
            e.wf(),
            e.config is None,
            forall|id: u64| e.get_spec(id) is None,
    {
        MultisigGovernance { config: None, store: PendingActionStore::new() }
    }

    /// Decides whether `id` is an authorized signer. A query: never
    /// mutates state.
    pub fn is_signer(&self, id: u64) -> (b: bool)
        requires
            self.wf(),
        ensures
            b == self.is_signer_spec(id),
    {
        match &self.config {
            Some(c) => c.registry.is_signer(id),
            None => false,
        }
    }

    /// The weight of `id`, zero for non-signers. A query: never mutates
    /// state.
    pub fn weight_of(&self, id: u64) -> (w: u64)
        requires
            self.wf(),
        ensures
            w == self.weight_spec(id),
    {
        match &self.config {
            Some(c) => c.registry.weight_of(id),
            None => 0,
        }
    }

    /// The threshold an action must reach under the current configuration.
    pub fn required_weight(&self) -> (w: u64)
        requires
            self.wf(),
        ensures
            w == self.required_spec(),
    {
        match &self.config {
            Some(c) => c.policy.required_weight(ActionClass::SensitiveTransfer),
            None => 0,
        }
    }

    /// The action stored under `action_id`, if any. A query: never mutates
    /// state.
    pub fn get(&self, action_id: u64) -> (r: Option<&PendingAction>)
        requires
            self.wf(),
        ensures
            match r {
                Some(a) => self.get_spec(action_id) == Some(*a),
                None => self.get_spec(action_id) is None,
            },
    {
        self.store.get(action_id)
    }

    /// Configures or atomically re-configures the engine: `caller` becomes
    /// the owner and an implicit signer of weight `master_weight`, the
    /// listed signers are installed at their weights, and `policy` takes
    /// effect. The list is an ordered mapping: a later occurrence of an
    /// identity overrides the earlier one, and an owner entry overrides
    /// the master weight. `auth_ok` is the outcome of the identity proof
    /// for `caller`, obtained by the caller's host. `InvalidPolicy` comes
    /// exactly when the thresholds are not monotonically non-decreasing.
    /// Re-configuration is gated by the current owner and moves every
    /// still-proposed action to `Rejected`, so no stale weight can execute
    /// under the new policy. On any failure the prior registry, policy and
    /// actions are left untouched.
    pub fn configure_multisig(
        &mut self,
        caller: u64,
        auth_ok: bool,
        master_weight: u64,
        additional: Vec<Signer>,
        policy: ThresholdPolicy,
    ) -> (r: Result<(), GovError>)
        requires
            old(self).wf(),
        ensures
            final(self).wf(),
            r is Err ==> *final(self) == *old(self),
            (r == Err::<(), GovError>(GovError::Unauthorized) <==> (!auth_ok || (old(
                self,
            ).config matches Some(c) && caller != c.registry.owner))),
            auth_ok && !(old(self).config matches Some(c) && caller != c.registry.owner) ==> (r
                == Err::<(), GovError>(GovError::InvalidPolicy) <==> !policy.wf()),
            (r is Ok <==> (auth_ok && !(old(self).config matches Some(c) && caller
                != c.registry.owner) && policy.wf())),
            r is Ok ==> {
                &&& final(self).config matches Some(c2) && c2.policy == policy
                    && c2.registry.owner == caller
                &&& forall|id: u64| #[trigger] final(self).is_signer_spec(id)
                    == configured_is_signer(caller, additional@, id)
                &&& forall|id: u64| #[trigger] final(self).weight_spec(id) == configured_weight(
                    caller,
                    master_weight,
                    additional@,
                    id,
                )
                &&& final(self).required_spec() == policy.required_weight_spec(
                    ActionClass::SensitiveTransfer,
                )
                &&& final(self).store.actions@.len() == old(self).store.actions@.len()
                &&& forall|i: int|
                    0 <= i < old(self).store.actions@.len() ==> invalidated_or_kept(
                        old(self).store.actions@[i],
                        #[trigger] final(self).store.actions@[i],
                    )
            },
    {
        if !auth_ok {
            return Err(GovError::Unauthorized);
        }
        match &self.config {
            Some(c) => {
                if caller != c.registry.owner {
                    return Err(GovError::Unauthorized);
                }
            },
            None => {},
        }
        if !policy.is_valid() {
            return Err(GovError::InvalidPolicy);
        }
        let reg = SignerRegistry::build(caller, master_weight, additional);
        let n: usize = self.store.actions.len();
        let mut i: usize = 0;
        while i < n
            invariant
                n == self.store.actions@.len(),
                i <= n,
                self.config == old(self).config,
                forall|k: int|
                    i <= k < n ==> #[trigger] self.store.actions@[k] == old(
                        self,
                    ).store.actions@[k],
                forall|k: int|
                    0 <= k < i ==> invalidated_or_kept(
                        old(self).store.actions@[k],
                        #[trigger] self.store.actions@[k],
                    ),
            decreases n - i,
        {
            let a_ref = &self.store.actions[i];
            let terminal = a_ref.is_terminal();
            if !terminal {
                let slot = &mut self.store.actions[i];
                slot.status = ActionStatus::Rejected;
            }
            i += 1;
        }
        self.config = Some(GovernanceConfig { registry: reg, policy });
        proof {
            assert forall|k: int, l: int|
                0 <= k < l < self.store.actions@.len() implies (
            #[trigger] self.store.actions@[k]).id != (
            #[trigger] self.store.actions@[l]).id by {
                assert(old(self).store.actions@[k].id != old(self).store.actions@[l].id);
                assert(self.store.actions@[k].id == old(self).store.actions@[k].id);
                assert(self.store.actions@[l].id == old(self).store.actions@[l].id);
            }
            assert forall|k: int| 0 <= k < self.store.actions@.len() implies self.action_wf(
                #[trigger] self.store.actions@[k],
            ) by {
                let oa = old(self).store.actions@[k];
                let na = self.store.actions@[k];
                assert(old(self).action_wf(oa));
                assert(na.status != ActionStatus::Proposed);
                assert(na.signed_by@ == oa.signed_by@);
            }
        }
        Ok(())
    }

    /// Proposes a sensitive action under `action_id`, carrying `payload`.
    /// `auth_ok` is the outcome of the identity proof for `proposer`. The
    /// proposer's own weight is pre-applied; when it alone meets the
    /// threshold the action executes immediately. An id whose previous
    /// action is terminal is reusable; a live one is not.
    pub fn propose(
        &mut self,
        proposer: u64,
        auth_ok: bool,
        action_id: u64,
        payload: i128,
        created_at: u64,
    ) -> (r: Result<ApprovalOutcome, GovError>)
        requires
            old(self).wf(),
        ensures
            final(self).wf(),
            final(self).config == old(self).config,
            r is Err ==> *final(self) == *old(self),
            (r == Err::<ApprovalOutcome, GovError>(GovError::Unauthorized) <==> !auth_ok),
            auth_ok ==> (r == Err::<ApprovalOutcome, GovError>(GovError::NotASigner) <==> !old(
                self,
            ).is_signer_spec(proposer)),
            auth_ok && old(self).is_signer_spec(proposer) ==> (r == Err::<
                ApprovalOutcome,
                GovError,
            >(GovError::DuplicateProposal) <==> (old(self).get_spec(action_id) matches Some(p)
                && !p.is_terminal_spec())),
            (r is Ok <==> (auth_ok && old(self).is_signer_spec(proposer) && !(old(self).get_spec(
                action_id,
            ) matches Some(p) && !p.is_terminal_spec()))),
            r is Ok ==> ({
                let w = old(self).weight_spec(proposer) as int;
                let executed = w >= old(self).required_spec() as int;
                &&& r == Ok::<ApprovalOutcome, GovError>(
                    if executed {
                        ApprovalOutcome::Executed
                    } else {
                        ApprovalOutcome::Pending(w as u128)
                    },
                )
                &&& (final(self).get_spec(action_id) matches Some(b) && b.id == action_id
                    && b.proposer == proposer && b.payload == payload && b.created_at == created_at
                    && b.signed_by@ == seq![proposer] && b.accumulated_weight as int == w
                    && b.status == (if executed {
                    ActionStatus::Executed
                } else {
                    ActionStatus::Proposed
                }))
                &&& forall|x: u64| x != action_id ==> final(self).get_spec(x) == old(
                    self,
                ).get_spec(x)
            }),
    {
        if !auth_ok {
            return Err(GovError::Unauthorized);
        }
        if !self.is_signer(proposer) {
            return Err(GovError::NotASigner);
        }
        let w = self.weight_of(proposer);
        let required = self.required_weight();
        let executed = w >= required;
        let mut signed_by: Vec<u64> = Vec::new();
        signed_by.push(proposer);
        let action = PendingAction {
            id: action_id,
            proposer,
            payload,
            accumulated_weight: w as u128,
            signed_by,
            status: if executed {
                ActionStatus::Executed
            } else {
                ActionStatus::Proposed
            },
            created_at,
        };
        proof {
            let reg = self.config->Some_0.registry;
            assert(action.signed_by@ =~= seq![proposer]);
            assert(action.signed_by@.last() == proposer);
            assert(action.signed_by@.drop_last() =~= Seq::<u64>::empty());
            assert(sum_weights(reg, Seq::<u64>::empty()) == 0);
            assert(sum_weights(reg, action.signed_by@) == sum_weights(reg, Seq::<u64>::empty())
                + reg.weight_spec(proposer));
            assert(action.accumulated_weight as int == sum_weights(reg, action.signed_by@));
        }
        match self.store.find(action_id) {
            None => {
                self.store.insert_new(action);
                proof {
                    self.lemma_wf_after_put(*old(self), action_id);
                }
                if executed {
                    Ok(ApprovalOutcome::Executed)
                } else {
                    Ok(ApprovalOutcome::Pending(w as u128))
                }
            },
            Some(i) => {
                let a_ref = &self.store.actions[i];
                if !a_ref.is_terminal() {
                    return Err(GovError::DuplicateProposal);
                }
                self.store.set_at(i, action);
                proof {
                    self.lemma_wf_after_put(*old(self), action_id);
                }
                if executed {
                    Ok(ApprovalOutcome::Executed)
                } else {
                    Ok(ApprovalOutcome::Pending(w as u128))
                }
            },
        }
    }

    /// Adds `signer`'s weight to the action under `action_id` and reports
    /// execution exactly when the accumulated weight now meets the
    /// required threshold. `auth_ok` is the outcome of the identity proof
    /// for `signer`. A signer's weight counts at most once per action, and
    /// a terminal action accepts no further countersignatures.
    pub fn countersign(&mut self, signer: u64, auth_ok: bool, action_id: u64) -> (r: Result<
        ApprovalOutcome,
        GovError,
    >)
        requires
            old(self).wf(),
        ensures
            final(self).wf(),
            final(self).config == old(self).config,
            r is Err ==> *final(self) == *old(self),
            (r == Err::<ApprovalOutcome, GovError>(GovError::Unauthorized) <==> !auth_ok),
            auth_ok ==> (r == Err::<ApprovalOutcome, GovError>(GovError::NotASigner) <==> !old(
                self,
            ).is_signer_spec(signer)),
            auth_ok && old(self).is_signer_spec(signer) ==> (r == Err::<
                ApprovalOutcome,
                GovError,
            >(GovError::UnknownAction) <==> old(self).get_spec(action_id) is None),
            auth_ok && old(self).is_signer_spec(signer) ==> (old(self).get_spec(action_id)
                matches Some(a) ==> (r == Err::<ApprovalOutcome, GovError>(
                GovError::AlreadyFinalized,
            ) <==> a.is_terminal_spec())),
            auth_ok && old(self).is_signer_spec(signer) ==> (old(self).get_spec(action_id)
                matches Some(a) ==> (!a.is_terminal_spec() ==> (r == Err::<
                ApprovalOutcome,
                GovError,
            >(GovError::DuplicateSignature) <==> a.has_signed_spec(signer)))),
            (r is Ok <==> (auth_ok && old(self).is_signer_spec(signer) && (old(self).get_spec(
                action_id,
            ) matches Some(a) && !a.is_terminal_spec() && !a.has_signed_spec(signer)))),
            r is Ok ==> (old(self).get_spec(action_id) matches Some(a) && {
                let w = old(self).weight_spec(signer) as int;
                let new_acc = a.accumulated_weight + w;
                let executed = new_acc >= old(self).required_spec() as int;
                &&& r == Ok::<ApprovalOutcome, GovError>(
                    if executed {
                        ApprovalOutcome::Executed
                    } else {
                        ApprovalOutcome::Pending(new_acc as u128)
                    },
                )
                &&& (final(self).get_spec(action_id) matches Some(b) && b.id == a.id && b.proposer
                    == a.proposer && b.payload == a.payload && b.created_at == a.created_at
                    && b.signed_by@ == a.signed_by@.push(
                    signer,
                ) && b.accumulated_weight as int == new_acc && b.status == (if executed {
                    ActionStatus::Executed
                } else {
                    ActionStatus::Proposed
                }))
                &&& forall|x: u64| x != action_id ==> final(self).get_spec(x) == old(
                    self,
                ).get_spec(x)
            }),
    {
        if !auth_ok {
            return Err(GovError::Unauthorized);
        }
        if !self.is_signer(signer) {
            return Err(GovError::NotASigner);
        }
        let i = match self.store.find(action_id) {
            None => {
                return Err(GovError::UnknownAction);
            },
            Some(i) => i,
        };
        let a_ref = &self.store.actions[i];
        if a_ref.is_terminal() {
            return Err(GovError::AlreadyFinalized);
        }
        if a_ref.has_signed(signer) {
            return Err(GovError::DuplicateSignature);
        }
        let w = self.weight_of(signer);
        let required = self.required_weight();
        let ghost a_old = self.store.actions@[i as int];
        proof {
            assert(self.action_wf(a_old));
            lemma_sum_weights_bound(self.config->Some_0.registry, a_old.signed_by@);
        }
        let a_ref = &self.store.actions[i];
        let len: usize = a_ref.signed_by.len();
        proof {
            assert(a_old.accumulated_weight as int <= len as int * (u64::MAX as int));
            assert(a_old.accumulated_weight as int + (w as int) <= (len as int + 1) * (
            u64::MAX as int));
            assert((len as int + 1) * (u64::MAX as int) <= (u64::MAX as int + 1) * (
            u64::MAX as int));
            assert((u64::MAX as int + 1) * (u64::MAX as int) < u128::MAX as int);
        }
        let new_acc: u128 = a_ref.accumulated_weight + (w as u128);
        let executed = new_acc >= (required as u128);
        let mut signed_by = copy_ids(&a_ref.signed_by);
        signed_by.push(signer);
        let updated = PendingAction {
            id: a_ref.id,
            proposer: a_ref.proposer,
            payload: a_ref.payload,
            accumulated_weight: new_acc,
            signed_by,
            status: if executed {
                ActionStatus::Executed
            } else {
                ActionStatus::Proposed
            },
            created_at: a_ref.created_at,
        };
        proof {
            let reg = self.config->Some_0.registry;
            assert(updated.signed_by@ == a_old.signed_by@.push(signer));
            assert(updated.signed_by@.drop_last() =~= a_old.signed_by@);
            assert(sum_weights(reg, updated.signed_by@) == sum_weights(reg, a_old.signed_by@)
                + reg.weight_spec(signer));
            assert forall|k: int, l: int|
                0 <= k < l < updated.signed_by@.len() implies updated.signed_by@[k]
                != updated.signed_by@[l] by {
                if l == a_old.signed_by@.len() {
                    if updated.signed_by@[k] == signer {
                        assert(a_old.signed_by@[k] == signer);
                        assert(a_old.has_signed_spec(signer));
                    }
                }
            }
        }
        self.store.set_at(i, updated);
        proof {
            self.lemma_wf_after_put(*old(self), action_id);
        }
        if executed {
            Ok(ApprovalOutcome::Executed)
        } else {
            Ok(ApprovalOutcome::Pending(new_acc))
        }
    }

    /// After storing one well-formed action into a well-formed engine whose
    /// configuration did not change, the engine is well-formed again.
    proof fn lemma_wf_after_put(self, prior: Self, action_id: u64)
        requires
            prior.wf(),
            self.config is Some,
            self.config == prior.config,
            self.store.ids_distinct(),
            self.store.actions@.len() <= prior.store.actions@.len() + 1,
            forall|k: int|
                0 <= k < self.store.actions@.len() && k < prior.store.actions@.len() && (
                #[trigger] self.store.actions@[k]) != prior.store.actions@[k]
                    ==> self.store.actions@[k].id == action_id,
            forall|k: int|
                prior.store.actions@.len() <= k < self.store.actions@.len() ==> (
                #[trigger] self.store.actions@[k]).id == action_id,
            forall|k: int|
                0 <= k < self.store.actions@.len() && (#[trigger] self.store.actions@[k]).id
                    == action_id ==> self.action_wf(self.store.actions@[k]),
        ensures
            self.wf(),
    {
        assert forall|k: int| 0 <= k < self.store.actions@.len() implies self.action_wf(
            #[trigger] self.store.actions@[k],
        ) by {
            if self.store.actions@[k].id != action_id {
                assert(self.store.actions@[k] == prior.store.actions@[k]);
                assert(prior.action_wf(prior.store.actions@[k]));
            }
        }
    }

    /// Any action the engine still reports as `Proposed` sits strictly
    /// below the required threshold: the `Executed` transition is reported
    /// the first time the accumulated weight reaches the threshold, never
    /// earlier, and — the terminal states being final — at most once.
    pub proof fn lemma_no_early_execution(self, action_id: u64, a: PendingAction)
        requires
            self.wf(),
            self.get_spec(action_id) == Some(a),
            a.status == ActionStatus::Proposed,
        ensures
            self.config is Some,
            (a.accumulated_weight as int) < self.required_spec() as int,
    {
        let i = choose|i: int|
            0 <= i < self.store.actions@.len() && (#[trigger] self.store.actions@[i]).id
                == action_id;
        self.store.lemma_get_at(i);
        assert(self.action_wf(self.store.actions@[i]));
    }
}

} // verus!
