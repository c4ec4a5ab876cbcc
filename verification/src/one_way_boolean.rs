use crate::traits::Grow;
use crate::violation::Violation;
use vstd::prelude::*;

verus! {

/// A flag that, once raised, stays raised.
///
/// Its state is the flag itself, with `false` below `true`; merging is logical or.
#[derive(Debug)]
pub struct OneWayBoolean {
    flag: bool,
}

impl Clone for OneWayBoolean {
    fn clone(&self) -> (r: Self)
        ensures
            r.state() == self.state(),
    {
        OneWayBoolean { flag: self.flag }
    }
}

impl Grow for OneWayBoolean {
    type Payload = bool;

    type Update = ();

    type Query = ();

    type Value = bool;

    type State = bool;

    open spec fn obeys_element_model() -> bool {
        true
    }

    open spec fn state_of(payload: &bool) -> bool {
        *payload
    }

    closed spec fn state(&self) -> bool {
        self.flag
    }

    open spec fn valid(s: bool) -> bool {
        true
    }

    open spec fn same_shape(a: bool, b: bool) -> bool {
        true
    }

    open spec fn leq(a: bool, b: bool) -> bool {
        a ==> b
    }

    open spec fn join(a: bool, b: bool) -> bool {
        a || b
    }

    open spec fn ambiguous(a: bool, b: bool) -> bool {
        false
    }

    open spec fn can_grow(s: bool, update: ()) -> bool {
        true
    }

    open spec fn grown(s: bool, update: ()) -> bool {
        true
    }

    open spec fn answer(s: bool, query: ()) -> Option<bool> {
        Some(s)
    }

    fn new(payload: bool) -> (r: Result<Self, Violation>) {
        Ok(OneWayBoolean { flag: payload })
    }

    fn payload(&self) -> (p: bool) {
        self.flag
    }

    fn add(&mut self, update: ()) -> (r: Result<(), Violation>) {
        self.flag = true;
        Ok(())
    }

    fn le(&self, other: &Self) -> (r: Result<bool, Violation>) {
        Ok(!self.flag || other.flag)
    }

    fn merge(&self, other: &Self) -> (r: Result<Self, Violation>) {
        Ok(OneWayBoolean { flag: self.flag || other.flag })
    }

    fn query(&self, query: &()) -> (r: Result<bool, Violation>) {
        Ok(self.flag)
    }

    proof fn lemma_shape_equivalence(a: bool, b: bool, c: bool) {
    }

    proof fn lemma_join_closed(a: bool, b: bool) {
    }

    proof fn lemma_merge_associative(x: bool, y: bool, z: bool) {
    }

    proof fn lemma_merge_commutative(x: bool, y: bool) {
    }

    proof fn lemma_merge_idempotent(x: bool, y: bool) {
    }

    proof fn lemma_add_monotonic(x: bool, update: ()) {
    }

    proof fn lemma_leq_preorder(x: bool, y: bool, z: bool) {
    }

    proof fn lemma_join_least_upper_bound(x: bool, y: bool, z: bool) {
    }
}

/// Two flags that are below each other are the same flag.
pub proof fn lemma_leq_antisymmetric(x: bool, y: bool)
    requires
        OneWayBoolean::leq(x, y),
        OneWayBoolean::leq(y, x),
    ensures
        x == y,
{
}

} // verus!
