//! The dispute-resolution collaborator: a straight-line two-state machine
//! over disputes, with no aggregation or weighting. It consumes the same
//! identity-proof capability as the approval engine and independently emits
//! lifecycle notifications; both stay at the caller's side, which hands in
//! the proof outcome as a plain boolean.

use vstd::prelude::*;

use crate::action::copy_ids;

verus! {

/// State of a dispute in the resolution process.
#[derive(Clone, Copy, Debug, PartialEq, Eq, Structural)]
pub enum DisputeState {
    /// Actively being reviewed.
    Active,
    /// Resolved with a final judgment; terminal.
    Resolved,
}

/// Failure kinds of the dispute court.
#[derive(Clone, Copy, Debug, PartialEq, Eq, Structural)]
pub enum DisputeError {
    /// The caller could not prove its identity.
    Unauthorized,
    /// A dispute under this id is still active.
    DuplicateDispute,
    /// No dispute is stored under the given id.
    UnknownDispute,
    /// The dispute already carries a final judgment.
    AlreadyResolved,
    /// The split ratio awarded must lie between 0 and 100.
    InvalidSplitRatio,
}

/// A dispute over one escrowed payment.
pub struct Dispute {
    /// Identifier of the disputed escrow or milestone.
    pub id: u64,
    /// The party that initiated the dispute.
    pub disputer: u64,
    /// Hashes of the evidence submitted so far, in submission order.
    pub evidence: Vec<u64>,
    pub state: DisputeState,
    /// Percentage of the funds awarded by the arbiter; set exactly when
    /// the dispute is resolved.
    pub verdict: Option<u32>,
}

impl Dispute {
    /// A resolved dispute carries a verdict within bounds; an active one
    /// carries none.
    pub open spec fn wf(self) -> bool {
        match self.state {
            DisputeState::Active => self.verdict is None,
            DisputeState::Resolved => self.verdict matches Some(v) && v <= 100,
        }
    }
}

/// Handles payment disputes: initiation, evidence intake, and arbiter
/// adjudication with a bounded fund split.
pub struct DisputeResolutionCourt {
    pub disputes: Vec<Dispute>,
}

impl DisputeResolutionCourt {
    /// Ids are unique and every dispute is well-formed.
    pub open spec fn wf(self) -> bool {
        &&& forall|i: int, j: int|
            0 <= i < j < self.disputes@.len() ==> (#[trigger] self.disputes@[i]).id != (
            #[trigger] self.disputes@[j]).id
        &&& forall|i: int| 0 <= i < self.disputes@.len() ==> (#[trigger] self.disputes@[i]).wf()
    }

    /// Holds exactly when some dispute is stored under `id`.
    pub open spec fn contains_id(self, id: u64) -> bool {
        exists|i: int| 0 <= i < self.disputes@.len() && (#[trigger] self.disputes@[i]).id == id
    }

    /// Position of the dispute stored under `id`; meaningful when
    /// `contains_id(id)` holds of a well-formed court.
    pub open spec fn index_of_spec(self, id: u64) -> int {
        choose|i: int| 0 <= i < self.disputes@.len() && (#[trigger] self.disputes@[i]).id == id
    }

    /// The dispute stored under `id`, if any.
    pub open spec fn get_spec(self, id: u64) -> Option<Dispute> {
        if self.contains_id(id) {
            Some(self.disputes@[self.index_of_spec(id)])
        } else {
            None
        }
    }

    /// With unique ids, the entry at any position holding `id` is the entry
    /// `get_spec` reports.
    proof fn lemma_get_at(self, i: int)
        requires
            self.wf(),
            0 <= i < self.disputes@.len(),
        ensures
            self.contains_id(self.disputes@[i].id),
            self.index_of_spec(self.disputes@[i].id) == i,
            self.get_spec(self.disputes@[i].id) == Some(self.disputes@[i]),
    {
        let id = self.disputes@[i].id;
        assert(self.contains_id(id));
        let j = self.index_of_spec(id);
        assert(0 <= j < self.disputes@.len() && self.disputes@[j].id == id);
        if i < j {
            assert(self.disputes@[i].id != self.disputes@[j].id);
        } else if j < i {
            assert(self.disputes@[j].id != self.disputes@[i].id);
        }
    }

    /// Two courts that hold `x` at the same positions report the same
    /// dispute for `x`.
    proof fn lemma_same_lookup(s1: Self, s2: Self, x: u64)
        requires
            s1.wf(),
            s2.wf(),
            forall|k: int|
                0 <= k < s1.disputes@.len() && (#[trigger] s1.disputes@[k]).id == x ==> k
                    < s2.disputes@.len() && s2.disputes@[k] == s1.disputes@[k],
            forall|k: int|
                0 <= k < s2.disputes@.len() && (#[trigger] s2.disputes@[k]).id == x ==> k
                    < s1.disputes@.len() && s1.disputes@[k] == s2.disputes@[k],
        ensures
            s1.get_spec(x) == s2.get_spec(x),
    {
        if s1.contains_id(x) {
            let i = choose|i: int|
                0 <= i < s1.disputes@.len() && (#[trigger] s1.disputes@[i]).id == x;
            s1.lemma_get_at(i);
            s2.lemma_get_at(i);
        } else if s2.contains_id(x) {
            let i = choose|i: int|
                0 <= i < s2.disputes@.len() && (#[trigger] s2.disputes@[i]).id == x;
            s2.lemma_get_at(i);
        }
    }

    /// A court with no disputes.
    pub fn new() -> (c: Self)
        ensures
            c.wf(),
            c.disputes@.len() == 0,
            forall|id: u64| c.get_spec(id) is None,
    {
        DisputeResolutionCourt { disputes: Vec::new() }
    }

    /// Position of the dispute stored under `id`, if any.
    fn find(&self, id: u64) -> (r: Option<usize>)
        requires
            self.wf(),
        ensures
            match r {
                Some(i) => i < self.disputes@.len() && self.disputes@[i as int].id == id
                    && self.get_spec(id) == Some(self.disputes@[i as int]),
                None => self.get_spec(id) is None,
            },
    {
        let n: usize = self.disputes.len();
        let mut i: usize = 0;
        while i < n
            invariant
                self.wf(),
                n == self.disputes@.len(),
                i <= n,
                forall|k: int| 0 <= k < i ==> (#[trigger] self.disputes@[k]).id != id,
            decreases n - i,
        {
            if self.disputes[i].id == id {
                proof {
                    self.lemma_get_at(i as int);
                }
                return Some(i);
            }
            i += 1;
        }
        assert(!self.contains_id(id));
        None
    }

    /// The dispute stored under `id`, if any. A query: never mutates state.
    pub fn get(&self, id: u64) -> (r: Option<&Dispute>)
        requires
            self.wf(),
        ensures
            match r {
                Some(d) => self.get_spec(id) == Some(*d),
                None => self.get_spec(id) is None,
            },
    {
        match self.find(id) {
            Some(i) => Some(&self.disputes[i]),
            None => None,
        }
    }

    /// Appends a well-formed dispute whose id is not yet present.
    fn insert_fresh(&mut self, d: Dispute)
        requires
            old(self).wf(),
            !old(self).contains_id(d.id),
            d.wf(),
        ensures
            final(self).wf(),
            final(self).get_spec(d.id) == Some(d),
            forall|x: u64| x != d.id ==> final(self).get_spec(x) == old(self).get_spec(x),
    {
        let ghost olds = self.disputes@;
        self.disputes.push(d);
        proof {
            assert forall|i: int, j: int| 0 <= i < j < self.disputes@.len() implies (
            #[trigger] self.disputes@[i]).id != (#[trigger] self.disputes@[j]).id by {
                if j == olds.len() {
                    if self.disputes@[i].id == d.id {
                        assert(old(self).disputes@[i].id == d.id);
                        assert(old(self).contains_id(d.id));
                    }
                } else {
                    assert(old(self).disputes@[i].id != old(self).disputes@[j].id);
                }
            }
            assert forall|i: int| 0 <= i < self.disputes@.len() implies (
            #[trigger] self.disputes@[i]).wf() by {
                if i < olds.len() {
                    assert(old(self).disputes@[i].wf());
                }
            }
            self.lemma_get_at(olds.len() as int);
            assert forall|x: u64| x != d.id implies self.get_spec(x) == old(self).get_spec(x) by {
                Self::lemma_same_lookup(*old(self), *self, x);
            }
        }
    }

    /// Replaces the entry at position `i` with a well-formed dispute of the
    /// same id; every other entry keeps its place.
    fn replace_at(&mut self, i: usize, d: Dispute)
        requires
            old(self).wf(),
            i < old(self).disputes@.len(),
            d.id == old(self).disputes@[i as int].id,
            d.wf(),
        ensures
            final(self).wf(),
            final(self).get_spec(d.id) == Some(d),
            forall|x: u64| x != d.id ==> final(self).get_spec(x) == old(self).get_spec(x),
    {
        let slot = &mut self.disputes[i];
        *slot = d;
        proof {
            assert(self.disputes@ == old(self).disputes@.update(i as int, d));
            assert forall|k: int, l: int| 0 <= k < l < self.disputes@.len() implies (
            #[trigger] self.disputes@[k]).id != (#[trigger] self.disputes@[l]).id by {
                assert(old(self).disputes@[k].id != old(self).disputes@[l].id);
            }
            assert forall|k: int| 0 <= k < self.disputes@.len() implies (
            #[trigger] self.disputes@[k]).wf() by {
                if k != i {
                    assert(old(self).disputes@[k].wf());
                }
            }
            self.lemma_get_at(i as int);
            assert forall|x: u64| x != d.id implies self.get_spec(x) == old(self).get_spec(x) by {
                Self::lemma_same_lookup(*old(self), *self, x);
            }
        }
    }

    /// Initiates a dispute for escrow `escrow_id`. `auth_ok` is the outcome
    /// of the identity proof for `disputer`, obtained by the caller. An id
    /// whose previous dispute is resolved may be disputed anew; a still
    /// active one may not.
    pub fn initiate_dispute(&mut self, escrow_id: u64, disputer: u64, auth_ok: bool) -> (r: Result<
        bool,
        DisputeError,
    >)
        requires
            old(self).wf(),
        ensures
            final(self).wf(),
            r is Err ==> *final(self) == *old(self),
            (r == Err::<bool, DisputeError>(DisputeError::Unauthorized) <==> !auth_ok),
            auth_ok ==> (r == Err::<bool, DisputeError>(DisputeError::DuplicateDispute) <==> (
            old(self).get_spec(escrow_id) matches Some(d) && d.state == DisputeState::Active)),
            (r is Ok <==> auth_ok && !(old(self).get_spec(escrow_id) matches Some(d) && d.state
                == DisputeState::Active)),
            r is Ok ==> {
                &&& r == Ok::<bool, DisputeError>(true)
                &&& final(self).get_spec(escrow_id) matches Some(d) && d.id == escrow_id
                    && d.disputer == disputer && d.evidence@.len() == 0 && d.state
                    == DisputeState::Active && d.verdict is None
                &&& forall|x: u64|
                    x != escrow_id ==> final(self).get_spec(x) == old(self).get_spec(x)
            },
    {
        if !auth_ok {
            return Err(DisputeError::Unauthorized);
        }
        let fresh = Dispute {
            id: escrow_id,
            disputer,
            evidence: Vec::new(),
            state: DisputeState::Active,
            verdict: None,
        };
        match self.find(escrow_id) {
            None => {
                self.insert_fresh(fresh);
                Ok(true)
            },
            Some(i) => {
                match self.disputes[i].state {
                    DisputeState::Active => Err(DisputeError::DuplicateDispute),
                    DisputeState::Resolved => {
                        self.replace_at(i, fresh);
                        Ok(true)
                    },
                }
            },
        }
    }

    /// Records evidence `evidence_hash` for dispute `dispute_id`, submitted
    /// by `submitter` whose identity proof the caller reports in `auth_ok`.
    pub fn submit_evidence(
        &mut self,
        dispute_id: u64,
        evidence_hash: u64,
        submitter: u64,
        auth_ok: bool,
    ) -> (r: Result<(), DisputeError>)
        requires
            old(self).wf(),
        ensures
            final(self).wf(),
            r is Err ==> *final(self) == *old(self),
            (r == Err::<(), DisputeError>(DisputeError::Unauthorized) <==> !auth_ok),
            auth_ok ==> (r == Err::<(), DisputeError>(DisputeError::UnknownDispute) <==> old(
                self,
            ).get_spec(dispute_id) is None),
            auth_ok ==> (old(self).get_spec(dispute_id) matches Some(d) ==> (r == Err::<
                (),
                DisputeError,
            >(DisputeError::AlreadyResolved) <==> d.state == DisputeState::Resolved)),
            (r is Ok <==> auth_ok && (old(self).get_spec(dispute_id) matches Some(d) && d.state
                == DisputeState::Active)),
            r is Ok ==> (old(self).get_spec(dispute_id) matches Some(d) && {
                &&& final(self).get_spec(dispute_id) matches Some(d2) && d2.id == d.id
                    && d2.disputer == d.disputer && d2.state == d.state && d2.verdict == d.verdict
                    && d2.evidence@ == d.evidence@.push(evidence_hash)
                &&& forall|x: u64|
                    x != dispute_id ==> final(self).get_spec(x) == old(self).get_spec(x)
            }),
    {
        if !auth_ok {
            return Err(DisputeError::Unauthorized);
        }
        let _ = submitter;
        match self.find(dispute_id) {
            None => Err(DisputeError::UnknownDispute),
            Some(i) => {
                match self.disputes[i].state {
                    DisputeState::Resolved => Err(DisputeError::AlreadyResolved),
                    DisputeState::Active => {
                        proof {
                            assert(self.disputes@[i as int].wf());
                        }
                        let d = &self.disputes[i];
                        let mut evidence = copy_ids(&d.evidence);
                        evidence.push(evidence_hash);
                        let updated = Dispute {
                            id: d.id,
                            disputer: d.disputer,
                            evidence,
                            state: DisputeState::Active,
                            verdict: None,
                        };
                        self.replace_at(i, updated);
                        Ok(())
                    },
                }
            },
        }
    }

    /// Resolves dispute `dispute_id`, awarding `split_ratio` percent of the
    /// escrowed funds; `auth_ok` reports the arbiter's identity proof.
    pub fn adjudicate(
        &mut self,
        dispute_id: u64,
        split_ratio: u32,
        arbiter: u64,
        auth_ok: bool,
    ) -> (r: Result<(), DisputeError>)
        requires
            old(self).wf(),
        ensures
            final(self).wf(),
            r is Err ==> *final(self) == *old(self),
            (r == Err::<(), DisputeError>(DisputeError::Unauthorized) <==> !auth_ok),
            auth_ok ==> (r == Err::<(), DisputeError>(DisputeError::InvalidSplitRatio) <==>
            split_ratio > 100),
            auth_ok && split_ratio <= 100 ==> (r == Err::<(), DisputeError>(
                DisputeError::UnknownDispute,
            ) <==> old(self).get_spec(dispute_id) is None),
            auth_ok && split_ratio <= 100 ==> (old(self).get_spec(dispute_id) matches Some(d)
                ==> (r == Err::<(), DisputeError>(DisputeError::AlreadyResolved) <==> d.state
                == DisputeState::Resolved)),
            (r is Ok <==> auth_ok && split_ratio <= 100 && (old(self).get_spec(dispute_id)
                matches Some(d) && d.state == DisputeState::Active)),
            r is Ok ==> (old(self).get_spec(dispute_id) matches Some(d) && {
                &&& final(self).get_spec(dispute_id) matches Some(d2) && d2.id == d.id
                    && d2.disputer == d.disputer && d2.evidence@ == d.evidence@ && d2.state
                    == DisputeState::Resolved && d2.verdict == Some(split_ratio)
                &&& forall|x: u64|
                    x != dispute_id ==> final(self).get_spec(x) == old(self).get_spec(x)
            }),
    {
        if !auth_ok {
            return Err(DisputeError::Unauthorized);
        }
        let _ = arbiter;
        if split_ratio > 100 {
            return Err(DisputeError::InvalidSplitRatio);
        }
        match self.find(dispute_id) {
            None => Err(DisputeError::UnknownDispute),
            Some(i) => {
                match self.disputes[i].state {
                    DisputeState::Resolved => Err(DisputeError::AlreadyResolved),
                    DisputeState::Active => {
                        let d = &self.disputes[i];
                        let updated = Dispute {
                            id: d.id,
                            disputer: d.disputer,
                            evidence: copy_ids(&d.evidence),
                            state: DisputeState::Resolved,
                            verdict: Some(split_ratio),
                        };
                        self.replace_at(i, updated);
                        Ok(())
                    },
                }
            },
        }
    }
}

} // verus!
