use crate::counts::{
    least, lemma_max_associative, lemma_max_commutative, lemma_max_idempotent,
    lemma_total_raised, pointwise_le, pointwise_max, raised, total, vec_copy, vec_le, vec_max,
    vec_total,
};
use crate::traits::Grow;
use crate::violation::Violation;
use vstd::prelude::*;

verus! {

/// A counter that only goes up, with one count for each replica.
///
/// A replica counts its own increments under its id; the value is the sum of all counts. One
/// counter is below another where none of its counts is larger; merging takes, count by
/// count, the larger one. The merged counter gets the smaller of the two ids, a choice
/// without meaning.
///
/// The vector has one entry for each replica, and the id is an index into it.
#[derive(Debug)]
pub struct GCounter {
    id: usize,
    counts: Vec<u64>,
}

/// The state of a [`GCounter`].
#[verifier::ext_equal]
pub struct GCounterState {
    /// The index at which the local replica counts.
    pub id: usize,
    /// The increments, by replica.
    pub counts: Seq<u64>,
}

impl GCounter {
    #[verifier::type_invariant]
    spec fn well_formed(&self) -> bool {
        self.id < self.counts.len()
    }

    /// The number of replicas that both counters were built for, if they agree on it.
    pub fn compatible_len(&self, other: &Self) -> (r: Result<usize, Violation>)
        ensures
            r is Ok <==> Self::same_shape(self.state(), other.state()),
            r matches Ok(replicas) ==> replicas == self.state().counts.len(),
            r matches Err(e) ==> e == (Violation::LengthMismatch {
                ours: self.state().counts.len() as usize,
                theirs: other.state().counts.len() as usize,
            }),
            <Self as Grow>::valid(self.state()),
            <Self as Grow>::valid(other.state()),
    {
        proof {
            use_type_invariant(self);
            use_type_invariant(other);
        }
        let ours = self.counts.len();
        let theirs = other.counts.len();
        if ours != theirs {
            return Err(Violation::LengthMismatch { ours, theirs });
        }
        Ok(ours)
    }
}

impl Clone for GCounter {
    fn clone(&self) -> (r: Self)
        ensures
            r.state() == self.state(),
    {
        proof {
            use_type_invariant(self);
        }
        GCounter { id: self.id, counts: vec_copy(&self.counts) }
    }
}

impl Grow for GCounter {
    type Payload = (usize, Vec<u64>);

    type Update = ();

    type Query = ();

    type Value = u64;

    type State = GCounterState;

    open spec fn obeys_element_model() -> bool {
        true
    }

    open spec fn state_of(payload: &(usize, Vec<u64>)) -> GCounterState {
        GCounterState { id: payload.0, counts: payload.1@ }
    }

    closed spec fn state(&self) -> GCounterState {
        GCounterState { id: self.id, counts: self.counts@ }
    }

    open spec fn valid(s: GCounterState) -> bool {
        s.id < s.counts.len()
    }

    open spec fn same_shape(a: GCounterState, b: GCounterState) -> bool {
        a.counts.len() == b.counts.len()
    }

    open spec fn leq(a: GCounterState, b: GCounterState) -> bool {
        pointwise_le(a.counts, b.counts)
    }

    open spec fn join(a: GCounterState, b: GCounterState) -> GCounterState {
        GCounterState { id: least(a.id, b.id), counts: pointwise_max(a.counts, b.counts) }
    }

    open spec fn ambiguous(a: GCounterState, b: GCounterState) -> bool {
        false
    }

    open spec fn can_grow(s: GCounterState, update: ()) -> bool {
        s.counts[s.id as int] < u64::MAX
    }

    open spec fn grown(s: GCounterState, update: ()) -> GCounterState {
        if Self::can_grow(s, update) {
            GCounterState { counts: raised(s.counts, s.id as int), ..s }
        } else {
            s
        }
    }

    open spec fn answer(s: GCounterState, query: ()) -> Option<u64> {
        if total(s.counts) <= u64::MAX {
            Some(total(s.counts) as u64)
        } else {
            None
        }
    }

    fn new(payload: (usize, Vec<u64>)) -> (r: Result<Self, Violation>)
        ensures
            r matches Err(e) ==> e == (Violation::IdOutOfRange {
                id: payload.0,
                len: payload.1.len(),
            }),
    {
        let (id, counts) = payload;
        if id >= counts.len() {
            return Err(Violation::IdOutOfRange { id, len: counts.len() });
        }
        Ok(GCounter { id, counts })
    }

    fn payload(&self) -> (p: (usize, Vec<u64>)) {
        proof {
            use_type_invariant(self);
        }
        (self.id, vec_copy(&self.counts))
    }

    fn add(&mut self, update: ()) -> (r: Result<(), Violation>)
        ensures
            r matches Err(e) ==> e == (Violation::CounterExhausted { id: old(self).state().id }),
    {
        proof {
            use_type_invariant(&*self);
        }
        let count = self.counts[self.id];
        if count == u64::MAX {
            return Err(Violation::CounterExhausted { id: self.id });
        }
        self.counts[self.id] = count + 1;
        assert(self.counts@ =~= raised(old(self).counts@, self.id as int));
        Ok(())
    }

    fn le(&self, other: &Self) -> (r: Result<bool, Violation>)
        ensures
            r matches Err(e) ==> e == (Violation::LengthMismatch {
                ours: self.state().counts.len() as usize,
                theirs: other.state().counts.len() as usize,
            }),
    {
        match self.compatible_len(other) {
            Ok(_) => Ok(vec_le(&self.counts, &other.counts)),
            Err(e) => Err(e),
        }
    }

    fn merge(&self, other: &Self) -> (r: Result<Self, Violation>)
        ensures
            r matches Err(e) ==> e == (Violation::LengthMismatch {
                ours: self.state().counts.len() as usize,
                theirs: other.state().counts.len() as usize,
            }),
    {
        proof {
            use_type_invariant(self);
            use_type_invariant(other);
        }
        match self.compatible_len(other) {
            Ok(_) => Ok(
                GCounter {
                    id: if self.id <= other.id {
                        self.id
                    } else {
                        other.id
                    },
                    counts: vec_max(&self.counts, &other.counts),
                },
            ),
            Err(e) => Err(e),
        }
    }

    fn query(&self, query: &()) -> (r: Result<u64, Violation>)
        ensures
            r matches Err(e) ==> e == Violation::ValueOutOfRange,
    {
        let sum = vec_total(&self.counts);
        if sum <= u64::MAX as u128 {
            Ok(sum as u64)
        } else {
            Err(Violation::ValueOutOfRange)
        }
    }

    proof fn lemma_shape_equivalence(a: GCounterState, b: GCounterState, c: GCounterState) {
    }

    proof fn lemma_join_closed(a: GCounterState, b: GCounterState) {
    }

    proof fn lemma_merge_associative(x: GCounterState, y: GCounterState, z: GCounterState) {
        lemma_max_associative(x.counts, y.counts, z.counts);
    }

    proof fn lemma_merge_commutative(x: GCounterState, y: GCounterState) {
        lemma_max_commutative(x.counts, y.counts);
    }

    proof fn lemma_merge_idempotent(x: GCounterState, y: GCounterState) {
        lemma_max_idempotent(x.counts, y.counts);
    }

    proof fn lemma_add_monotonic(x: GCounterState, update: ()) {
    }

    proof fn lemma_leq_preorder(x: GCounterState, y: GCounterState, z: GCounterState) {
    }

    proof fn lemma_join_least_upper_bound(x: GCounterState, y: GCounterState, z: GCounterState) {
    }
}

/// Two counters that are below each other hold the same counts. Their ids may differ.
pub proof fn lemma_leq_antisymmetric(x: GCounterState, y: GCounterState)
    requires
        GCounter::same_shape(x, y),
        GCounter::leq(x, y),
        GCounter::leq(y, x),
    ensures
        x.counts == y.counts,
{
    assert(x.counts =~= y.counts);
}

/// An increment that is accepted raises the sum of the counts, which is the value, by one.
pub proof fn lemma_add_counts_one(s: GCounterState)
    requires
        <GCounter as Grow>::valid(s),
        GCounter::can_grow(s, ()),
    ensures
        total(GCounter::grown(s, ()).counts) == total(s.counts) + 1,
{
    lemma_total_raised(s.counts, s.id as int);
}

} // verus!
