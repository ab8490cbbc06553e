//! The registry of authorized signers and their weights.

use vstd::prelude::*;

verus! {

/// An identity granted approval weight under the policy.
#[derive(Clone, Copy, Debug, PartialEq, Eq, Structural)]
pub struct Signer {
    /// Opaque principal, unique within a registry.
    pub identity: u64,
    /// Approval weight this identity contributes. A weight of zero can
    /// never contribute to reaching a threshold.
    pub weight: u64,
}

/// Holds exactly when some entry of `s` carries `id`.
pub open spec fn has_identity(s: Seq<Signer>, id: u64) -> bool {
    exists|i: int| 0 <= i < s.len() && (#[trigger] s[i]).identity == id
}

/// No identity appears twice in `s`.
pub open spec fn distinct_identities(s: Seq<Signer>) -> bool {
    forall|i: int, j: int|
        0 <= i < j < s.len() ==> (#[trigger] s[i]).identity != (#[trigger] s[j]).identity
}

/// Position of the entry carrying `id`; meaningful when `has_identity`
/// holds of a list with distinct identities, where it is unique.
pub open spec fn index_of_identity(s: Seq<Signer>, id: u64) -> int {
    choose|i: int| 0 <= i < s.len() && (#[trigger] s[i]).identity == id
}

/// The weight `s` stores for `id`, zero when `id` is absent.
pub open spec fn weight_at(s: Seq<Signer>, id: u64) -> u64 {
    if has_identity(s, id) {
        s[index_of_identity(s, id)].weight
    } else {
        0
    }
}

/// The weight the ordered list of a configuration call assigns to `id`:
/// the list is a mapping written down in order, a later occurrence of an
/// identity overriding every earlier one. `None` when `id` is not listed.
pub open spec fn weight_in(list: Seq<Signer>, id: u64) -> Option<u64>
    decreases list.len(),
{
    if list.len() == 0 {
        None
    } else if list.last().identity == id {
        Some(list.last().weight)
    } else {
        weight_in(list.drop_last(), id)
    }
}

/// Whether a configuration call with owner `owner` and signer list `list`
/// makes `id` a signer: the owner is always an implicit signer, everyone
/// listed is one.
pub open spec fn configured_is_signer(owner: u64, list: Seq<Signer>, id: u64) -> bool {
    id == owner || weight_in(list, id) is Some
}

/// The weight such a configuration call gives `id`: its last listed
/// weight; the master weight for an owner the list does not override;
/// zero for everyone else.
pub open spec fn configured_weight(owner: u64, master_weight: u64, list: Seq<Signer>, id: u64) -> u64 {
    match weight_in(list, id) {
        Some(w) => w,
        None => if id == owner {
            master_weight
        } else {
            0
        },
    }
}

/// With distinct identities, any position holding `id` is the position
/// `index_of_identity` picks, so the weight there is `weight_at`.
pub proof fn lemma_entry_at(s: Seq<Signer>, id: u64, i: int)
    requires
        distinct_identities(s),
        0 <= i < s.len(),
        s[i].identity == id,
    ensures
        has_identity(s, id),
        index_of_identity(s, id) == i,
        weight_at(s, id) == s[i].weight,
{
    assert(has_identity(s, id));
    let j = index_of_identity(s, id);
    assert(0 <= j < s.len() && s[j].identity == id);
    if i < j {
        assert(s[i].identity != s[j].identity);
    } else if j < i {
        assert(s[j].identity != s[i].identity);
    }
}

/// Two lists that hold `id` at the same positions store the same weight
/// for `id`.
proof fn lemma_same_entry(s1: Seq<Signer>, s2: Seq<Signer>, id: u64)
    requires
        distinct_identities(s1),
        distinct_identities(s2),
        forall|k: int|
            0 <= k < s1.len() && (#[trigger] s1[k]).identity == id ==> k < s2.len() && s2[k]
                == s1[k],
        forall|k: int|
            0 <= k < s2.len() && (#[trigger] s2[k]).identity == id ==> k < s1.len() && s1[k]
                == s2[k],
    ensures
        has_identity(s1, id) == has_identity(s2, id),
        weight_at(s1, id) == weight_at(s2, id),
{
    if has_identity(s1, id) {
        let i = choose|i: int| 0 <= i < s1.len() && (#[trigger] s1[i]).identity == id;
        lemma_entry_at(s1, id, i);
        lemma_entry_at(s2, id, i);
    } else if has_identity(s2, id) {
        let i = choose|i: int| 0 <= i < s2.len() && (#[trigger] s2[i]).identity == id;
        lemma_entry_at(s2, id, i);
    }
}

/// One step of reading the ordered list as a mapping: the entry at `k`
/// overrides whatever the first `k` entries said of its identity and
/// changes nothing else.
proof fn lemma_weight_in_extend(list: Seq<Signer>, k: int, id: u64)
    requires
        0 <= k < list.len(),
    ensures
        weight_in(list.take(k + 1), id) == (if list[k].identity == id {
            Some(list[k].weight)
        } else {
            weight_in(list.take(k), id)
        }),
{
    assert(list.take(k + 1).len() == k + 1);
    assert(list.take(k + 1).last() == list[k]);
    assert(list.take(k + 1).drop_last() =~= list.take(k));
}

/// Position of the entry of `v` carrying `id`, if any.
pub(crate) fn find_identity(v: &Vec<Signer>, id: u64) -> (r: Option<usize>)
    ensures
        match r {
            Some(i) => i < v@.len() && v@[i as int].identity == id,
            None => !has_identity(v@, id),
        },
{
    let n: usize = v.len();
    let mut i: usize = 0;
    while i < n
        invariant
            n == v@.len(),
            i <= n,
            forall|k: int| 0 <= k < i ==> (#[trigger] v@[k]).identity != id,
        decreases n - i,
    {
        if v[i].identity == id {
            return Some(i);
        }
        i += 1;
    }
    assert(!has_identity(v@, id));
    None
}

/// The set of authorized signers, with the owner that configured it.
/// Membership is immutable after construction; re-configuration replaces
/// the whole registry atomically.
pub struct SignerRegistry {
    /// The identity that configured the registry.
    pub owner: u64,
    /// All signers, the owner included as an implicit entry.
    pub signers: Vec<Signer>,
}

impl SignerRegistry {
    /// Identities in the registry are unique.
    pub open spec fn wf(self) -> bool {
        distinct_identities(self.signers@)
    }

    /// Holds exactly when `id` is an authorized signer.
    pub open spec fn is_signer_spec(self, id: u64) -> bool {
        has_identity(self.signers@, id)
    }

    /// The weight of `id`: its configured weight when it is a signer,
    /// zero otherwise.
    pub open spec fn weight_spec(self, id: u64) -> u64 {
        weight_at(self.signers@, id)
    }

    /// Decides whether `id` is an authorized signer.
    pub fn is_signer(&self, id: u64) -> (b: bool)
        ensures
            b == self.is_signer_spec(id),
    {
        match find_identity(&self.signers, id) {
            Some(i) => {
                assert(self.signers@[i as int].identity == id);
                true
            },
            None => false,
        }
    }

    /// The weight of `id`, zero when it is not a signer.
    pub fn weight_of(&self, id: u64) -> (w: u64)
        requires
            self.wf(),
        ensures
            w == self.weight_spec(id),
    {
        match find_identity(&self.signers, id) {
            Some(i) => {
                proof {
                    lemma_entry_at(self.signers@, id, i as int);
                }
                self.signers[i].weight
            },
            None => 0,
        }
    }

    /// Builds the registry a configuration call installs: the owner as an
    /// implicit signer of weight `master_weight`, then each listed signer
    /// in order, a later occurrence of an identity overriding the earlier
    /// one, and an owner entry overriding the master weight.
    pub fn build(owner: u64, master_weight: u64, additional: Vec<Signer>) -> (reg: SignerRegistry)
        ensures
            reg.wf(),
            reg.owner == owner,
            forall|id: u64| #[trigger] reg.is_signer_spec(id) == configured_is_signer(
                owner,
                additional@,
                id,
            ),
            forall|id: u64| #[trigger] reg.weight_spec(id) == configured_weight(
                owner,
                master_weight,
                additional@,
                id,
            ),
    {
        let mut signers: Vec<Signer> = Vec::new();
        signers.push(Signer { identity: owner, weight: master_weight });
        proof {
            assert(additional@.take(0) =~= Seq::<Signer>::empty());
            assert forall|id: u64| #[trigger] has_identity(signers@, id) == configured_is_signer(
                owner,
                additional@.take(0),
                id,
            ) && weight_at(signers@, id) == configured_weight(
                owner,
                master_weight,
                additional@.take(0),
                id,
            ) by {
                assert(weight_in(Seq::<Signer>::empty(), id) is None);
                if id == owner {
                    lemma_entry_at(signers@, id, 0);
                } else {
                    if has_identity(signers@, id) {
                        let i = choose|i: int|
                            0 <= i < signers@.len() && (#[trigger] signers@[i]).identity == id;
                        assert(i == 0);
                    }
                }
            }
        }
        let n: usize = additional.len();
        let mut k: usize = 0;
        while k < n
            invariant
                n == additional@.len(),
                k <= n,
                distinct_identities(signers@),
                forall|id: u64| #[trigger] has_identity(signers@, id) == configured_is_signer(
                    owner,
                    additional@.take(k as int),
                    id,
                ),
                forall|id: u64| #[trigger] weight_at(signers@, id) == configured_weight(
                    owner,
                    master_weight,
                    additional@.take(k as int),
                    id,
                ),
            decreases n - k,
        {
            let s = additional[k];
            let ghost pre = signers@;
            match find_identity(&signers, s.identity) {
                Some(j) => {
                    let slot = &mut signers[j];
                    *slot = s;
                    proof {
                        lemma_entry_at(pre, s.identity, j as int);
                        assert(signers@ =~= pre.update(j as int, s));
                        assert forall|i: int, l: int| 0 <= i < l < signers@.len() implies (
                        #[trigger] signers@[i]).identity != (#[trigger] signers@[l]).identity by {
                            assert(pre[i].identity != pre[l].identity);
                            assert(signers@[i].identity == pre[i].identity);
                            assert(signers@[l].identity == pre[l].identity);
                        }
                        assert forall|id: u64| #[trigger] has_identity(signers@, id)
                            == configured_is_signer(owner, additional@.take(k + 1), id)
                            && weight_at(signers@, id) == configured_weight(
                            owner,
                            master_weight,
                            additional@.take(k + 1),
                            id,
                        ) by {
                            lemma_weight_in_extend(additional@, k as int, id);
                            if id == s.identity {
                                lemma_entry_at(signers@, id, j as int);
                            } else {
                                lemma_same_entry(pre, signers@, id);
                                assert(has_identity(pre, id) == configured_is_signer(
                                    owner,
                                    additional@.take(k as int),
                                    id,
                                ));
                                assert(weight_at(pre, id) == configured_weight(
                                    owner,
                                    master_weight,
                                    additional@.take(k as int),
                                    id,
                                ));
                            }
                        }
                    }
                },
                None => {
                    signers.push(s);
                    proof {
                        assert(signers@ =~= pre.push(s));
                        assert forall|i: int, l: int| 0 <= i < l < signers@.len() implies (
                        #[trigger] signers@[i]).identity != (#[trigger] signers@[l]).identity by {
                            if l == pre.len() {
                                if signers@[i].identity == s.identity {
                                    assert(pre[i].identity == s.identity);
                                    assert(has_identity(pre, s.identity));
                                }
                            } else {
                                assert(pre[i].identity != pre[l].identity);
                            }
                        }
                        assert forall|id: u64| #[trigger] has_identity(signers@, id)
                            == configured_is_signer(owner, additional@.take(k + 1), id)
                            && weight_at(signers@, id) == configured_weight(
                            owner,
                            master_weight,
                            additional@.take(k + 1),
                            id,
                        ) by {
                            lemma_weight_in_extend(additional@, k as int, id);
                            if id == s.identity {
                                lemma_entry_at(signers@, id, pre.len() as int);
                            } else {
                                lemma_same_entry(pre, signers@, id);
                                assert(has_identity(pre, id) == configured_is_signer(
                                    owner,
                                    additional@.take(k as int),
                                    id,
                                ));
                                assert(weight_at(pre, id) == configured_weight(
                                    owner,
                                    master_weight,
                                    additional@.take(k as int),
                                    id,
                                ));
                            }
                        }
                    }
                },
            }
            k += 1;
        }
        proof {
            assert(additional@.take(n as int) =~= additional@);
        }
        SignerRegistry { owner, signers }
    }
}

} // verus!
