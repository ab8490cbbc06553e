//! Proposed actions awaiting approval, and the keyed store that owns them.

use vstd::prelude::*;

verus! {

/// Lifecycle status of a proposed action. `Executed` and `Rejected` are
/// terminal: an action never transitions out of them.
#[derive(Clone, Copy, Debug, PartialEq, Eq, Structural)]
pub enum ActionStatus {
    /// Awaiting enough accumulated weight.
    Proposed,
    /// The threshold was reached; the decision to execute was reported.
    Executed,
    /// Invalidated (by a re-configuration) before reaching the threshold.
    Rejected,
}

/// A proposed sensitive action accumulating approval weight.
pub struct PendingAction {
    /// Caller-supplied identifier; at most one live action per id.
    pub id: u64,
    /// Identity that proposed the action.
    pub proposer: u64,
    /// The transfer amount the action carries.
    pub payload: i128,
    /// Total weight of the identities in `signed_by`.
    pub accumulated_weight: u128,
    /// Identities that have countersigned, the proposer included.
    pub signed_by: Vec<u64>,
    pub status: ActionStatus,
    /// Creation marker supplied by the caller at proposal time (a ledger
    /// sequence or timestamp); never changed afterwards.
    pub created_at: u64,
}

impl PendingAction {
    /// Terminal actions accept no further countersignatures.
    pub open spec fn is_terminal_spec(self) -> bool {
        self.status != ActionStatus::Proposed
    }

    /// Holds exactly when `id` has already countersigned this action.
    pub open spec fn has_signed_spec(self, id: u64) -> bool {
        self.signed_by@.contains(id)
    }

    /// No identity appears twice among the countersigners.
    pub open spec fn signers_distinct(self) -> bool {
        forall|i: int, j: int|
            0 <= i < j < self.signed_by@.len() ==> self.signed_by@[i] != self.signed_by@[j]
    }

    /// Decides whether the action is in a terminal status.
    pub fn is_terminal(&self) -> (b: bool)
        ensures
            b == self.is_terminal_spec(),
    {
        match self.status {
            ActionStatus::Proposed => false,
            ActionStatus::Executed => true,
            ActionStatus::Rejected => true,
        }
    }

    /// Decides whether `id` has already countersigned this action.
    pub fn has_signed(&self, id: u64) -> (b: bool)
        ensures
            b == self.has_signed_spec(id),
    {
        let n: usize = self.signed_by.len();
        let mut i: usize = 0;
        while i < n
            invariant
                n == self.signed_by@.len(),
                i <= n,
                forall|k: int| 0 <= k < i ==> self.signed_by@[k] != id,
            decreases n - i,
        {
            if self.signed_by[i] == id {
                assert(self.signed_by@[i as int] == id);
                return true;
            }
            i += 1;
        }
        assert(forall|k: int| 0 <= k < self.signed_by@.len() ==> self.signed_by@[k] != id);
        false
    }
}

/// Copies a list of identities.
pub(crate) fn copy_ids(v: &Vec<u64>) -> (r: Vec<u64>)
    ensures
        r@ == v@,
{
    let n: usize = v.len();
    let mut r: Vec<u64> = Vec::new();
    let mut i: usize = 0;
    while i < n
        invariant
            n == v@.len(),
            i <= n,
            r@ == v@.take(i as int),
        decreases n - i,
    {
        r.push(v[i]);
        proof {
            assert(r@ == v@.take(i + 1));
        }
        i += 1;
    }
    proof {
        assert(v@.take(n as int) == v@);
    }
    r
}

/// The keyed collection of proposed actions. Exclusively owns its entries;
/// every id maps to at most one action.
pub struct PendingActionStore {
    pub actions: Vec<PendingAction>,
}

impl PendingActionStore {
    /// Ids in the store are unique.
    pub open spec fn ids_distinct(self) -> bool {
        forall|i: int, j: int|
            0 <= i < j < self.actions@.len() ==> (#[trigger] self.actions@[i]).id != (
            #[trigger] self.actions@[j]).id
    }

    /// Holds exactly when some action is stored under `id`.
    pub open spec fn contains_id(self, id: u64) -> bool {
        exists|i: int| 0 <= i < self.actions@.len() && (#[trigger] self.actions@[i]).id == id
    }

    /// Position of the action stored under `id`; meaningful when
    /// `contains_id(id)` holds of a store with distinct ids.
    pub open spec fn index_of_spec(self, id: u64) -> int {
        choose|i: int| 0 <= i < self.actions@.len() && (#[trigger] self.actions@[i]).id == id
    }

    /// The action stored under `id`, if any.
    pub open spec fn get_spec(self, id: u64) -> Option<PendingAction> {
        if self.contains_id(id) {
            Some(self.actions@[self.index_of_spec(id)])
        } else {
            None
        }
    }

    /// When ids are distinct, the entry at any position holding `id` is the
    /// entry `get_spec` reports.
    pub proof fn lemma_get_at(self, i: int)
        requires
            self.ids_distinct(),
            0 <= i < self.actions@.len(),
        ensures
            self.contains_id(self.actions@[i].id),
            self.index_of_spec(self.actions@[i].id) == i,
            self.get_spec(self.actions@[i].id) == Some(self.actions@[i]),
    {
        let id = self.actions@[i].id;
        assert(self.contains_id(id));
        let j = self.index_of_spec(id);
        assert(0 <= j < self.actions@.len() && self.actions@[j].id == id);
        if i < j {
            assert(self.actions@[i].id != self.actions@[j].id);
        } else if j < i {
            assert(self.actions@[j].id != self.actions@[i].id);
        }
    }

    /// An empty store.
    pub fn new() -> (s: Self)
        ensures
            s.actions@.len() == 0,
            s.ids_distinct(),
            forall|id: u64| s.get_spec(id) is None,
    {
        PendingActionStore { actions: Vec::new() }
    }

    /// Position of the action stored under `id`, if any.
    pub(crate) fn find(&self, id: u64) -> (r: Option<usize>)
        requires
            self.ids_distinct(),
        ensures
            match r {
                Some(i) => i < self.actions@.len() && self.actions@[i as int].id == id
                    && self.get_spec(id) == Some(self.actions@[i as int]),
                None => self.get_spec(id) is None,
            },
    {
        let n: usize = self.actions.len();
        let mut i: usize = 0;
        while i < n
            invariant
                self.ids_distinct(),
                n == self.actions@.len(),
                i <= n,
                forall|k: int| 0 <= k < i ==> (#[trigger] self.actions@[k]).id != id,
            decreases n - i,
        {
            if self.actions[i].id == id {
                proof {
                    self.lemma_get_at(i as int);
                }
                return Some(i);
            }
            i += 1;
        }
        assert(!self.contains_id(id));
        None
    }

    /// The action stored under `id`, if any. A query: never mutates the
    /// store, however often it is called.
    pub fn get(&self, id: u64) -> (r: Option<&PendingAction>)
        requires
            self.ids_distinct(),
        ensures
            match r {
                Some(a) => self.get_spec(id) == Some(*a),
                None => self.get_spec(id) is None,
            },
    {
        match self.find(id) {
            Some(i) => Some(&self.actions[i]),
            None => None,
        }
    }

    /// Appends an action whose id is not yet present.
    pub fn insert_new(&mut self, a: PendingAction)
        requires
            old(self).ids_distinct(),
            !old(self).contains_id(a.id),
        ensures
            final(self).ids_distinct(),
            final(self).actions@ == old(self).actions@.push(a),
            final(self).get_spec(a.id) == Some(a),
            forall|x: u64| x != a.id ==> final(self).get_spec(x) == old(self).get_spec(x),
    {
        let ghost olds = self.actions@;
        self.actions.push(a);
        proof {
            assert forall|i: int, j: int| 0 <= i < j < self.actions@.len() implies (
            #[trigger] self.actions@[i]).id != (#[trigger] self.actions@[j]).id by {
                if j == olds.len() {
                    if self.actions@[i].id == a.id {
                        assert(olds[i].id == a.id);
                        assert(old(self).contains_id(a.id));
                    }
                } else {
                    assert(olds[i].id != olds[j].id);
                }
            }
            assert(old(self).actions@ == olds);
            self.lemma_get_at(olds.len() as int);
            assert forall|x: u64| x != a.id implies self.get_spec(x) == old(self).get_spec(
                x,
            ) by {
                Self::lemma_same_lookup(*old(self), *self, x);
            }
        }
    }

    /// Replaces the entry at position `i` with an action carrying the same
    /// id; every other entry keeps its place.
    pub fn set_at(&mut self, i: usize, a: PendingAction)
        requires
            old(self).ids_distinct(),
            i < old(self).actions@.len(),
            a.id == old(self).actions@[i as int].id,
        ensures
            final(self).ids_distinct(),
            final(self).actions@ == old(self).actions@.update(i as int, a),
            final(self).get_spec(a.id) == Some(a),
            forall|x: u64| x != a.id ==> final(self).get_spec(x) == old(self).get_spec(x),
    {
        let slot = &mut self.actions[i];
        *slot = a;
        proof {
            assert(self.actions@ == old(self).actions@.update(i as int, a));
            assert forall|k: int, l: int| 0 <= k < l < self.actions@.len() implies (
            #[trigger] self.actions@[k]).id != (#[trigger] self.actions@[l]).id by {
                assert(old(self).actions@[k].id != old(self).actions@[l].id);
                assert(self.actions@[k].id == old(self).actions@[k].id);
                assert(self.actions@[l].id == old(self).actions@[l].id);
            }
            self.lemma_get_at(i as int);
            assert forall|x: u64| x != a.id implies self.get_spec(x) == old(self).get_spec(
                x,
            ) by {
                Self::lemma_same_lookup(*old(self), *self, x);
            }
        }
    }

    /// Two stores that hold `x` at the same positions report the same
    /// entry for `x`.
    proof fn lemma_same_lookup(s1: Self, s2: Self, x: u64)
        requires
            s1.ids_distinct(),
            s2.ids_distinct(),
            forall|k: int|
                0 <= k < s1.actions@.len() && (#[trigger] s1.actions@[k]).id == x ==> k
                    < s2.actions@.len() && s2.actions@[k] == s1.actions@[k],
            forall|k: int|
                0 <= k < s2.actions@.len() && (#[trigger] s2.actions@[k]).id == x ==> k
                    < s1.actions@.len() && s1.actions@[k] == s2.actions@[k],
        ensures
            s1.get_spec(x) == s2.get_spec(x),
    {
        if s1.contains_id(x) {
            let i = choose|i: int|
                0 <= i < s1.actions@.len() && (#[trigger] s1.actions@[i]).id == x;
            s1.lemma_get_at(i);
            s2.lemma_get_at(i);
        } else if s2.contains_id(x) {
            let i = choose|i: int|
                0 <= i < s2.actions@.len() && (#[trigger] s2.actions@[i]).id == x;
            s2.lemma_get_at(i);
        }
    }
}

} // verus!
