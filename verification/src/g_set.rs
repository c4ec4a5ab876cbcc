use crate::elements::{absorb, clone_set, is_subset, obeys_set_model};
use crate::traits::Grow;
use crate::violation::Violation;
use std::collections::HashSet;
use std::hash::Hash;
use vstd::prelude::*;

verus! {

/// A set that elements can join and never leave.
///
/// Its state is the set of its elements, ordered by inclusion; merging is union.
#[derive(Debug)]
pub struct GSet<X: Clone + Eq + Hash> {
    values: HashSet<X>,
}

impl<X: Clone + Eq + Hash> Clone for GSet<X> {
    fn clone(&self) -> (r: Self)
        ensures
            obeys_set_model::<X>() ==> r.state() == self.state(),
    {
        GSet { values: clone_set(&self.values) }
    }
}

impl<X: Clone + Eq + Hash> Grow for GSet<X> {
    type Payload = HashSet<X>;

    type Update = X;

    type Query = X;

    type Value = bool;

    type State = Set<X>;

    open spec fn obeys_element_model() -> bool {
        obeys_set_model::<X>()
    }

    open spec fn state_of(payload: &HashSet<X>) -> Set<X> {
        payload@
    }

    closed spec fn state(&self) -> Set<X> {
        self.values@
    }

    open spec fn valid(s: Set<X>) -> bool {
        true
    }

    open spec fn same_shape(a: Set<X>, b: Set<X>) -> bool {
        true
    }

    open spec fn leq(a: Set<X>, b: Set<X>) -> bool {
        a.subset_of(b)
    }

    open spec fn join(a: Set<X>, b: Set<X>) -> Set<X> {
        a.union(b)
    }

    open spec fn ambiguous(a: Set<X>, b: Set<X>) -> bool {
        false
    }

    open spec fn can_grow(s: Set<X>, update: X) -> bool {
        true
    }

    open spec fn grown(s: Set<X>, update: X) -> Set<X> {
        s.insert(update)
    }

    open spec fn answer(s: Set<X>, query: X) -> Option<bool> {
        Some(s.contains(query))
    }

    fn new(payload: HashSet<X>) -> (r: Result<Self, Violation>) {
        Ok(GSet { values: payload })
    }

    fn payload(&self) -> (p: HashSet<X>) {
        clone_set(&self.values)
    }

    fn add(&mut self, update: X) -> (r: Result<(), Violation>) {
        self.values.insert(update);
        Ok(())
    }

    fn le(&self, other: &Self) -> (r: Result<bool, Violation>) {
        Ok(is_subset(&self.values, &other.values))
    }

    fn merge(&self, other: &Self) -> (r: Result<Self, Violation>) {
        let mut values = clone_set(&self.values);
        absorb(&mut values, &other.values);
        Ok(GSet { values })
    }

    fn query(&self, query: &X) -> (r: Result<bool, Violation>) {
        Ok(self.values.contains(query))
    }

    proof fn lemma_shape_equivalence(a: Set<X>, b: Set<X>, c: Set<X>) {
    }

    proof fn lemma_join_closed(a: Set<X>, b: Set<X>) {
    }

    proof fn lemma_merge_associative(x: Set<X>, y: Set<X>, z: Set<X>) {
        assert(x.union(y.union(z)) =~= x.union(y).union(z));
    }

    proof fn lemma_merge_commutative(x: Set<X>, y: Set<X>) {
        assert(x.union(y) =~= y.union(x));
    }

    proof fn lemma_merge_idempotent(x: Set<X>, y: Set<X>) {
        assert(x.union(y).union(y) =~= x.union(y));
    }

    proof fn lemma_add_monotonic(x: Set<X>, update: X) {
    }

    proof fn lemma_leq_preorder(x: Set<X>, y: Set<X>, z: Set<X>) {
    }

    proof fn lemma_join_least_upper_bound(x: Set<X>, y: Set<X>, z: Set<X>) {
    }
}

/// Two sets that are below each other are the same set.
pub proof fn lemma_leq_antisymmetric<X: Clone + Eq + Hash>(x: Set<X>, y: Set<X>)
    requires
        GSet::<X>::leq(x, y),
        GSet::<X>::leq(y, x),
    ensures
        x == y,
{
    assert(x =~= y);
}

} // verus!
