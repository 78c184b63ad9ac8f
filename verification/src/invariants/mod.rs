//! Invariants: conditions that protocol entities must satisfy at all times,
//! and a registry that checks them in a deterministic order.
use vstd::prelude::*;
use crate::text::{str_lt, str_less, str_eq, lemma_lex_transitive, lemma_lex_irreflexive, lemma_str_lt_total};

pub mod task_state;
use crate::domain::Task;
use task_state::TaskStateInvariant;
pub mod artifact;
pub mod dsl;
pub mod event;

verus! {

/// The abstract content of an invariant violation.
pub enum ViolationView {
    TaskStateViolation { reason: Seq<char> },
    ArtifactMutated { artifact_id: Seq<char>, reason: Seq<char> },
    EventOrderingViolation { reason: Seq<char> },
    Custom { name: Seq<char>, reason: Seq<char> },
    Multiple { violations: Seq<ViolationView> },
}

/// Why an invariant does not hold.
#[derive(Debug)]
pub enum InvariantViolation {
    /// A task state violates the lifecycle rules.
    TaskStateViolation { reason: String },
    /// An artifact was modified after it was first observed.
    ArtifactMutated { artifact_id: String, reason: String },
    /// Events arrived out of order.
    EventOrderingViolation { reason: String },
    /// A user-defined invariant failed.
    Custom { name: String, reason: String },
    /// Several invariants failed, in check order.
    Multiple { violations: Vec<InvariantViolation> },
}

impl View for InvariantViolation {
    type V = ViolationView;

    open spec fn view(&self) -> ViolationView
        decreases self,
    {
        match self {
            InvariantViolation::TaskStateViolation { reason } => ViolationView::TaskStateViolation {
                reason: reason@,
            },
            InvariantViolation::ArtifactMutated { artifact_id, reason } => ViolationView::ArtifactMutated {
                artifact_id: artifact_id@,
                reason: reason@,
            },
            InvariantViolation::EventOrderingViolation { reason } => ViolationView::EventOrderingViolation {
                reason: reason@,
            },
            InvariantViolation::Custom { name, reason } => ViolationView::Custom {
                name: name@,
                reason: reason@,
            },
            InvariantViolation::Multiple { violations } => ViolationView::Multiple {
                violations: Seq::new(
                    violations@.len(),
                    |i: int|
                        if 0 <= i < violations@.len() {
                            violations@[i].view()
                        } else {
                            ViolationView::Custom { name: Seq::empty(), reason: Seq::empty() }
                        },
                ),
            },
        }
    }
}

/// The views of a sequence of violations.
pub open spec fn violations_view(s: Seq<InvariantViolation>) -> Seq<ViolationView> {
    Seq::new(s.len(), |i: int| s[i]@)
}

/// The outcome of an invariant check.
pub type InvariantResult = Result<(), InvariantViolation>;

/// The abstract outcome of an invariant check.
pub open spec fn result_view(r: InvariantResult) -> Result<(), ViolationView> {
    match r {
        Ok(()) => Ok(()),
        Err(e) => Err(e@),
    }
}

/// A condition on values of type `T`.
///
/// `verdict` states what `check` returns: `Ok` when the condition holds, and
/// the violation otherwise.
pub trait Invariant<T>: Send + Sync {
    /// What `check` returns on `value`.
    spec fn verdict(&self, value: T) -> Result<(), ViolationView>;

    /// Checks the invariant on `value`.
    fn check(&self, value: &T) -> (r: InvariantResult)
        ensures
            result_view(r) == self.verdict(*value),
    ;

    /// A short name for this invariant.
    fn name(&self) -> &str;

    /// What this invariant checks.
    fn description(&self) -> (r: &str)
        default_ensures
            r@ == "No description provided"@,
    {
        "No description provided"
    }
}

/// Keys in strictly increasing order (hence distinct).
pub open spec fn keys_sorted(keys: Seq<Seq<char>>) -> bool {
    forall|i: int, j: int| 0 <= i < j < keys.len() ==> str_lt(keys[i], keys[j])
}

/// The violations reported by the invariants of `invs` on `value`, in order.
pub open spec fn failures<T>(invs: Seq<Box<dyn Invariant<T>>>, value: T) -> Seq<ViolationView>
    decreases invs.len(),
{
    if invs.len() == 0 {
        Seq::empty()
    } else {
        let before = failures(invs.drop_last(), value);
        match invs.last().verdict(value) {
            Ok(()) => before,
            Err(e) => before.push(e),
        }
    }
}

/// No failures means every invariant holds.
pub proof fn lemma_failures_empty<T>(invs: Seq<Box<dyn Invariant<T>>>, value: T)
    ensures
        (failures(invs, value).len() == 0) == (forall|i: int| 0 <= i < invs.len() ==> (#[trigger] invs[i].verdict(value)) is Ok),
    decreases invs.len(),
{
    if invs.len() > 0 {
        lemma_failures_empty(invs.drop_last(), value);
        assert forall|i: int| 0 <= i < invs.len() - 1 implies invs.drop_last()[i] == invs[i] by {}
    }
}

/// A set of invariants, checked in the lexicographic order of their keys.
#[verifier::reject_recursive_types(T)]
pub struct InvariantRegistry<T> {
    keys: Vec<String>,
    invs: Vec<Box<dyn Invariant<T>>>,
}

impl<T> InvariantRegistry<T> {
    /// The registration keys, in check order.
    pub closed spec fn keys_view(&self) -> Seq<Seq<char>> {
        Seq::new(self.keys@.len(), |i: int| self.keys@[i]@)
    }

    /// The invariants, in check order.
    pub closed spec fn invariants_view(&self) -> Seq<Box<dyn Invariant<T>>> {
        self.invs@
    }

    /// Keys are sorted and distinct, one per invariant.
    pub closed spec fn wf(&self) -> bool {
        &&& keys_sorted(self.keys_view())
        &&& self.keys@.len() == self.invs@.len()
    }

    /// A well-formed registry has strictly sorted (hence distinct) keys, one
    /// per invariant.
    pub proof fn lemma_wf(&self)
        requires
            self.wf(),
        ensures
            keys_sorted(self.keys_view()),
            self.keys_view().no_duplicates(),
            self.keys_view().len() == self.invariants_view().len(),
    {
        let kv = self.keys_view();
        assert forall|i: int, j: int| 0 <= i < kv.len() && 0 <= j < kv.len() && i != j
            implies kv[i] != kv[j] by {
            if i < j {
                assert(str_lt(kv[i], kv[j]));
                lemma_lex_irreflexive(kv[i], 0);
            } else {
                assert(str_lt(kv[j], kv[i]));
                lemma_lex_irreflexive(kv[j], 0);
            }
        }
    }

    /// An empty registry.
    pub fn new() -> (r: Self)
        ensures
            r.wf(),
            keys_sorted(r.keys_view()),
            r.keys_view() == Seq::<Seq<char>>::empty(),
            r.invariants_view() == Seq::<Box<dyn Invariant<T>>>::empty(),
    {
        let r = InvariantRegistry { keys: Vec::new(), invs: Vec::new() };
        assert(r.keys_view() =~= Seq::<Seq<char>>::empty());
        r
    }

    /// Registers `inv` under `key`, replacing any invariant with that key.
    pub fn register(&mut self, key: &str, inv: Box<dyn Invariant<T>>)
        requires
            old(self).wf(),
        ensures
            final(self).wf(),
            keys_sorted(final(self).keys_view()),
            final(self).keys_view().len() == final(self).invariants_view().len(),
            old(self).keys_view().contains(key@) ==> exists|p: int|
                0 <= p < old(self).keys_view().len() && old(self).keys_view()[p] == key@
                    && final(self).keys_view() == old(self).keys_view()
                    && final(self).invariants_view() == old(self).invariants_view().update(p, inv),
            !old(self).keys_view().contains(key@) ==> exists|p: int|
                0 <= p <= old(self).keys_view().len()
                    && final(self).keys_view() == old(self).keys_view().insert(p, key@)
                    && final(self).invariants_view() == old(self).invariants_view().insert(p, inv),
    {
        let ghost old_keys = self.keys_view();
        let ghost old_invs = self.invariants_view();
        let mut p: usize = 0;
        while p < self.keys.len() && str_less(self.keys[p].as_str(), key)
            invariant
                p <= self.keys@.len(),
                old_keys == self.keys_view(),
                old_invs == self.invariants_view(),
                old_keys == old(self).keys_view(),
                old_invs == old(self).invariants_view(),
                self.wf(),
                forall|j: int| 0 <= j < p ==> str_lt(old_keys[j], key@),
            decreases self.keys@.len() - p,
        {
            p = p + 1;
        }
        assert(self.wf());
        assert(self.keys@.len() == self.invs@.len());
        if p < self.keys.len() && str_eq(self.keys[p].as_str(), key) {
            self.invs.set(p, inv);
            proof {
                vstd::seq::axiom_seq_update_len(old_invs, p as int, inv);
            }
            assert(self.keys_view() =~= old_keys);
            assert(old_keys[p as int] == key@);
            assert(old_keys.contains(key@));
            assert(self.keys@.len() == self.invs@.len());
            assert(keys_sorted(self.keys_view()));
        } else {
            if p < self.keys.len() {
                proof {
                    lemma_str_lt_total(old_keys[p as int], key@);
                }
            }
            self.keys.insert(p, crate::text::owned(key));
            self.invs.insert(p, inv);
            proof {
                old_invs.insert_ensures(p as int, inv);
            }
            let ghost nk = old_keys.insert(p as int, key@);
            assert(self.keys_view() =~= nk);
            assert forall|i: int, j: int| 0 <= i < j < nk.len() implies str_lt(nk[i], nk[j]) by {
                if j < p {
                    assert(nk[i] == old_keys[i] && nk[j] == old_keys[j]);
                } else if j == p {
                } else if i < p {
                    assert(nk[i] == old_keys[i] && nk[j] == old_keys[j - 1]);
                    lemma_lex_transitive(nk[i], key@, old_keys[p as int], 0);
                    if j - 1 > p {
                        assert(str_lt(old_keys[p as int], old_keys[j - 1]));
                        lemma_lex_transitive(nk[i], old_keys[p as int], nk[j], 0);
                    }
                } else if i == p {
                    assert(nk[j] == old_keys[j - 1]);
                    if j - 1 > p {
                        assert(str_lt(old_keys[p as int], old_keys[j - 1]));
                        lemma_lex_transitive(key@, old_keys[p as int], nk[j], 0);
                    }
                } else {
                    assert(nk[i] == old_keys[i - 1] && nk[j] == old_keys[j - 1]);
                }
            }
            assert(self.keys@.len() == self.invs@.len());
            assert(keys_sorted(self.keys_view()));
            assert(!old_keys.contains(key@)) by {
                if old_keys.contains(key@) {
                    let q = choose|q: int| 0 <= q < old_keys.len() && old_keys[q] == key@;
                    if q < p {
                        lemma_lex_irreflexive(key@, 0);
                    } else if q > p {
                        lemma_lex_transitive(key@, old_keys[p as int], key@, 0);
                        lemma_lex_irreflexive(key@, 0);
                    }
                }
            }
        }
    }

    /// Removes the invariant registered under `key`; `true` iff there was one.
    pub fn unregister(&mut self, key: &str) -> (r: bool)
        requires
            old(self).wf(),
        ensures
            final(self).wf(),
            keys_sorted(final(self).keys_view()),
            final(self).keys_view().len() == final(self).invariants_view().len(),
            r == old(self).keys_view().contains(key@),
            r ==> exists|p: int|
                0 <= p < old(self).keys_view().len() && old(self).keys_view()[p] == key@
                    && final(self).keys_view() == old(self).keys_view().remove(p)
                    && final(self).invariants_view() == old(self).invariants_view().remove(p),
            !r ==> final(self).keys_view() == old(self).keys_view()
                && final(self).invariants_view() == old(self).invariants_view(),
    {
        let ghost old_keys = self.keys_view();
        let ghost old_invs = self.invariants_view();
        let mut p: usize = 0;
        while p < self.keys.len()
            invariant
                p <= self.keys@.len(),
                old_keys == self.keys_view(),
                old_invs == self.invariants_view(),
                old_keys == old(self).keys_view(),
                old_invs == old(self).invariants_view(),
                self.wf(),
                forall|j: int| 0 <= j < p ==> old_keys[j] != key@,
            decreases self.keys@.len() - p,
        {
            if str_eq(self.keys[p].as_str(), key) {
                let _k = self.keys.remove(p);
                let _i = self.invs.remove(p);
                proof {
                    old_invs.remove_ensures(p as int);
                }
                assert(self.keys_view() =~= old_keys.remove(p as int));
                assert(old_keys[p as int] == key@);
                assert(keys_sorted(self.keys_view())) by {
                    let nk = self.keys_view();
                    assert forall|i: int, j: int| 0 <= i < j < nk.len() implies str_lt(nk[i], nk[j]) by {
                        let ii = if i < p { i } else { i + 1 };
                        let jj = if j < p { j } else { j + 1 };
                        assert(nk[i] == old_keys[ii] && nk[j] == old_keys[jj]);
                    }
                }
                return true;
            }
            p = p + 1;
        }
        false
    }

    /// Checks every invariant, in key order.
    ///
    /// `Ok` iff all hold; the one violation if exactly one fails; all of
    /// them, in key order, under `Multiple` if several fail.
    pub fn check_all(&self, value: &T) -> (r: InvariantResult)
        ensures
            ({
                let f = failures(self.invariants_view(), *value);
                &&& (r is Ok) == (f.len() == 0)
                &&& f.len() == 1 ==> result_view(r) == Err::<(), ViolationView>(f[0])
                &&& f.len() > 1 ==> result_view(r) == Err::<(), ViolationView>(ViolationView::Multiple { violations: f })
            }),
            (r is Ok) == (forall|i: int| 0 <= i < self.invariants_view().len() ==>
                (#[trigger] self.invariants_view()[i].verdict(*value)) is Ok),
    {
        let mut violations = self.check_all_collect(value);
        proof {
            lemma_failures_empty(self.invariants_view(), *value);
        }
        if violations.len() == 0 {
            Ok(())
        } else if violations.len() == 1 {
            let ghost vs = violations@;
            let e = violations.pop().unwrap();
            assert(e@ == violations_view(vs)[0]);
            Err(e)
        } else {
            let ghost vs = violations@;
            let r = InvariantViolation::Multiple { violations };
            assert(r@->violations =~= violations_view(vs));
            Err(r)
        }
    }

    /// Checks every invariant, in key order, and returns all violations.
    pub fn check_all_collect(&self, value: &T) -> (r: Vec<InvariantViolation>)
        ensures
            violations_view(r@) == failures(self.invariants_view(), *value),
    {
        let mut violations: Vec<InvariantViolation> = Vec::new();
        let mut i: usize = 0;
        let ghost invs = self.invariants_view();
        assert(invs.take(0) =~= Seq::<Box<dyn Invariant<T>>>::empty());
        assert(violations_view(violations@) =~= Seq::<ViolationView>::empty());
        while i < self.invs.len()
            invariant
                i <= self.invs@.len(),
                invs == self.invariants_view(),
                violations_view(violations@) == failures(invs.take(i as int), *value),
            decreases self.invs@.len() - i,
        {
            let res = self.invs[i].check(value);
            assert(invs.take(i + 1).drop_last() =~= invs.take(i as int));
            assert(invs.take(i + 1).last() == invs[i as int]);
            match res {
                Ok(()) => {},
                Err(e) => {
                    let ghost before = violations@;
                    violations.push(e);
                    assert(violations_view(violations@) =~= violations_view(before).push(e@));
                },
            }
            i = i + 1;
        }
        assert(invs.take(i as int) =~= invs);
        violations
    }

    /// The number of registered invariants.
    pub fn len(&self) -> (r: usize)
        requires
            self.wf(),
        ensures
            r == self.keys_view().len(),
    {
        self.keys.len()
    }

    /// `true` iff no invariant is registered.
    pub fn is_empty(&self) -> (r: bool)
        requires
            self.wf(),
        ensures
            r == (self.keys_view().len() == 0),
    {
        self.keys.len() == 0
    }

    /// The registration keys, in check order.
    pub fn keys(&self) -> (r: Vec<&str>)
        ensures
            r@.len() == self.keys_view().len(),
            forall|i: int| 0 <= i < r@.len() ==> r@[i]@ == self.keys_view()[i],
    {
        let mut r: Vec<&str> = Vec::new();
        let mut i: usize = 0;
        while i < self.keys.len()
            invariant
                i <= self.keys@.len(),
                r@.len() == i,
                forall|j: int| 0 <= j < i ==> r@[j]@ == self.keys_view()[j],
            decreases self.keys@.len() - i,
        {
            r.push(self.keys[i].as_str());
            i = i + 1;
        }
        r
    }
}

impl InvariantRegistry<Task> {
    /// A registry with the standard task invariants: the task state machine
    /// invariant, under the key `"task_state_machine"`.
    pub fn with_standard_invariants() -> (r: Self)
        ensures
            r.wf(),
            r.keys_view() == seq!["task_state_machine"@],
    {
        let mut r = Self::new();
        let ghost k0 = r.keys_view();
        r.register("task_state_machine", Box::new(TaskStateInvariant::new()));
        proof {
            assert(!k0.contains("task_state_machine"@));
            let p = choose|p: int| 0 <= p <= k0.len() && #[trigger] r.keys_view() == k0.insert(p, "task_state_machine"@);
            assert(p == 0);
            assert(r.keys_view() =~= seq!["task_state_machine"@]);
        }
        r
    }
}

impl<T> Default for InvariantRegistry<T> {
    fn default() -> (r: Self)
        ensures
            r.wf(),
            r.keys_view() == Seq::<Seq<char>>::empty(),
    {
        Self::new()
    }
}

} // verus!
