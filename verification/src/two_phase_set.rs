use crate::elements::{absorb, clone_set, is_subset, obeys_set_model};
use crate::traits::{Grow, Shrink};
use crate::violation::Violation;
use std::collections::HashSet;
use std::hash::Hash;
use vstd::prelude::*;

verus! {

/// A set that elements can join and leave, but never join again.
///
/// It keeps the elements that were ever added and, apart from them, those that were removed.
/// An element is a live member while it is among the first and not among the second. Both
/// sets only grow, so a removal is final. One set is below another where both of its parts
/// are included in the other's; merging unites part with part.
#[derive(Debug)]
pub struct TwoPhaseSet<X: Clone + Eq + Hash> {
    added: HashSet<X>,
    removed: HashSet<X>,
}

/// The state of a [`TwoPhaseSet`].
#[verifier::ext_equal]
#[verifier::reject_recursive_types(X)]
pub struct TwoPhaseState<X> {
    /// The elements that were ever added.
    pub added: Set<X>,
    /// The elements that were removed.
    pub removed: Set<X>,
}

impl<X> TwoPhaseState<X> {
    /// Whether `x` is a live member: added, and not removed.
    pub open spec fn live(self, x: X) -> bool {
        self.added.contains(x) && !self.removed.contains(x)
    }
}

impl<X: Clone + Eq + Hash> Clone for TwoPhaseSet<X> {
    fn clone(&self) -> (r: Self)
        ensures
            obeys_set_model::<X>() ==> r.state() == self.state(),
    {
        TwoPhaseSet { added: clone_set(&self.added), removed: clone_set(&self.removed) }
    }
}

impl<X: Clone + Eq + Hash> Grow for TwoPhaseSet<X> {
    type Payload = (HashSet<X>, HashSet<X>);

    type Update = X;

    type Query = X;

    type Value = bool;

    type State = TwoPhaseState<X>;

    open spec fn obeys_element_model() -> bool {
        obeys_set_model::<X>()
    }

    open spec fn state_of(payload: &(HashSet<X>, HashSet<X>)) -> TwoPhaseState<X> {
        TwoPhaseState { added: payload.0@, removed: payload.1@ }
    }

    closed spec fn state(&self) -> TwoPhaseState<X> {
        TwoPhaseState { added: self.added@, removed: self.removed@ }
    }

    open spec fn valid(s: TwoPhaseState<X>) -> bool {
        true
    }

    open spec fn same_shape(a: TwoPhaseState<X>, b: TwoPhaseState<X>) -> bool {
        true
    }

    open spec fn leq(a: TwoPhaseState<X>, b: TwoPhaseState<X>) -> bool {
        a.added.subset_of(b.added) && a.removed.subset_of(b.removed)
    }

    open spec fn join(a: TwoPhaseState<X>, b: TwoPhaseState<X>) -> TwoPhaseState<X> {
        TwoPhaseState { added: a.added.union(b.added), removed: a.removed.union(b.removed) }
    }

    open spec fn ambiguous(a: TwoPhaseState<X>, b: TwoPhaseState<X>) -> bool {
        false
    }

    open spec fn can_grow(s: TwoPhaseState<X>, update: X) -> bool {
        true
    }

    open spec fn grown(s: TwoPhaseState<X>, update: X) -> TwoPhaseState<X> {
        TwoPhaseState { added: s.added.insert(update), ..s }
    }

    open spec fn answer(s: TwoPhaseState<X>, query: X) -> Option<bool> {
        Some(s.live(query))
    }

    fn new(payload: (HashSet<X>, HashSet<X>)) -> (r: Result<Self, Violation>) {
        let (added, removed) = payload;
        Ok(TwoPhaseSet { added, removed })
    }

    fn payload(&self) -> (p: (HashSet<X>, HashSet<X>)) {
        (clone_set(&self.added), clone_set(&self.removed))
    }

    fn add(&mut self, update: X) -> (r: Result<(), Violation>) {
        self.added.insert(update);
        Ok(())
    }

    fn le(&self, other: &Self) -> (r: Result<bool, Violation>) {
        Ok(is_subset(&self.added, &other.added) && is_subset(&self.removed, &other.removed))
    }

    fn merge(&self, other: &Self) -> (r: Result<Self, Violation>) {
        let mut added = clone_set(&self.added);
        absorb(&mut added, &other.added);
        let mut removed = clone_set(&self.removed);
        absorb(&mut removed, &other.removed);
        Ok(TwoPhaseSet { added, removed })
    }

    fn query(&self, query: &X) -> (r: Result<bool, Violation>) {
        Ok(self.added.contains(query) && !self.removed.contains(query))
    }

    proof fn lemma_shape_equivalence(
        a: TwoPhaseState<X>,
        b: TwoPhaseState<X>,
        c: TwoPhaseState<X>,
    ) {
    }

    proof fn lemma_join_closed(a: TwoPhaseState<X>, b: TwoPhaseState<X>) {
    }

    proof fn lemma_merge_associative(
        x: TwoPhaseState<X>,
        y: TwoPhaseState<X>,
        z: TwoPhaseState<X>,
    ) {
        assert(Self::join(x, Self::join(y, z)) =~= Self::join(Self::join(x, y), z));
    }

    proof fn lemma_merge_commutative(x: TwoPhaseState<X>, y: TwoPhaseState<X>) {
        assert(Self::join(x, y) =~= Self::join(y, x));
    }

    proof fn lemma_merge_idempotent(x: TwoPhaseState<X>, y: TwoPhaseState<X>) {
        assert(Self::join(Self::join(x, y), y) =~= Self::join(x, y));
    }

    proof fn lemma_add_monotonic(x: TwoPhaseState<X>, update: X) {
    }

    proof fn lemma_leq_preorder(x: TwoPhaseState<X>, y: TwoPhaseState<X>, z: TwoPhaseState<X>) {
    }

    proof fn lemma_join_least_upper_bound(
        x: TwoPhaseState<X>,
        y: TwoPhaseState<X>,
        z: TwoPhaseState<X>,
    ) {
    }
}

impl<X: Clone + Eq + Hash> Shrink for TwoPhaseSet<X> {
    open spec fn can_shrink(s: TwoPhaseState<X>, update: X) -> bool {
        s.live(update)
    }

    open spec fn shrunk(s: TwoPhaseState<X>, update: X) -> TwoPhaseState<X> {
        if s.live(update) {
            TwoPhaseState { removed: s.removed.insert(update), ..s }
        } else {
            s
        }
    }

    fn del(&mut self, update: X) -> (r: Result<(), Violation>)
        ensures
            r matches Err(e) ==> e == Violation::NotAMember,
    {
        if !(self.added.contains(&update) && !self.removed.contains(&update)) {
            return Err(Violation::NotAMember);
        }
        self.removed.insert(update);
        Ok(())
    }

    proof fn lemma_del_monotonic(x: TwoPhaseState<X>, update: X) {
    }
}

/// An element that was removed is no live member, whatever is added, removed or merged in
/// afterwards.
pub proof fn lemma_removal_is_final<X: Clone + Eq + Hash>(
    s: TwoPhaseState<X>,
    later: TwoPhaseState<X>,
    x: X,
)
    requires
        s.removed.contains(x),
        TwoPhaseSet::<X>::leq(s, later),
    ensures
        !later.live(x),
{
}

/// Two sets that are below each other are the same set.
pub proof fn lemma_leq_antisymmetric<X: Clone + Eq + Hash>(
    x: TwoPhaseState<X>,
    y: TwoPhaseState<X>,
)
    requires
        TwoPhaseSet::<X>::leq(x, y),
        TwoPhaseSet::<X>::leq(y, x),
    ensures
        x == y,
{
    assert(x =~= y);
}

} // verus!
