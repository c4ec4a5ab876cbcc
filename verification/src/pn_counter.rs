use crate::counts::{
    least, lemma_max_associative, lemma_max_commutative, lemma_max_idempotent, lemma_total_raised,
    pointwise_le, pointwise_max, raised, total, vec_copy, vec_le, vec_max, vec_total,
};
use crate::traits::{Grow, Shrink};
use crate::violation::Violation;
use vstd::prelude::*;

verus! {

/// A counter that goes up and down, with one pair of counts for each replica.
///
/// A replica counts its own increments under its id in one vector and its own decrements in
/// the other; the value is the sum of the first less the sum of the second. One counter is
/// below another where none of its counts is larger; merging takes, count by count, the
/// larger one. The merged counter gets the smaller of the two ids, a choice without meaning.
///
/// Both vectors have one entry for each replica, and the id is an index into them.
#[derive(Debug)]
pub struct PNCounter {
    id: usize,
    positive: Vec<u64>,
    negative: Vec<u64>,
}

/// The state of a [`PNCounter`].
#[verifier::ext_equal]
pub struct PNCounterState {
    /// The index at which the local replica counts.
    pub id: usize,
    /// The increments, by replica.
    pub positive: Seq<u64>,
    /// The decrements, by replica.
    pub negative: Seq<u64>,
}

impl PNCounter {
    #[verifier::type_invariant]
    spec fn well_formed(&self) -> bool {
        &&& self.positive.len() == self.negative.len()
        &&& self.id < self.positive.len()
    }

    /// Checks the parts of a payload against the structural invariant: first that the two
    /// vectors agree in length, then that the id is an index into them.
    pub fn consistent(id: usize, positive: &Vec<u64>, negative: &Vec<u64>) -> (r: Result<
        (),
        Violation,
    >)
        ensures
            r is Ok <==> positive.len() == negative.len() && id < positive.len(),
            r matches Err(e) ==> e == (if positive.len() != negative.len() {
                Violation::UnevenVectors { positive: positive.len(), negative: negative.len() }
            } else {
                Violation::IdOutOfRange { id, len: positive.len() }
            }),
    {
        if positive.len() != negative.len() {
            return Err(
                Violation::UnevenVectors { positive: positive.len(), negative: negative.len() },
            );
        }
        if id >= positive.len() {
            return Err(Violation::IdOutOfRange { id, len: positive.len() });
        }
        Ok(())
    }

    /// The number of replicas that both counters were built for, if they agree on it.
    pub fn compatible_len(&self, other: &Self) -> (r: Result<usize, Violation>)
        ensures
            r is Ok <==> Self::same_shape(self.state(), other.state()),
            r matches Ok(replicas) ==> replicas == self.state().positive.len(),
            r matches Err(e) ==> e == (Violation::LengthMismatch {
                ours: self.state().positive.len() as usize,
                theirs: other.state().positive.len() as usize,
            }),
            <Self as Grow>::valid(self.state()),
            <Self as Grow>::valid(other.state()),
    {
        proof {
            use_type_invariant(self);
            use_type_invariant(other);
        }
        let ours = self.positive.len();
        let theirs = other.positive.len();
        if ours != theirs {
            return Err(Violation::LengthMismatch { ours, theirs });
        }
        Ok(ours)
    }
}

impl Clone for PNCounter {
    fn clone(&self) -> (r: Self)
        ensures
            r.state() == self.state(),
    {
        proof {
            use_type_invariant(self);
        }
        PNCounter {
            id: self.id,
            positive: vec_copy(&self.positive),
            negative: vec_copy(&self.negative),
        }
    }
}

impl Grow for PNCounter {
    type Payload = (usize, Vec<u64>, Vec<u64>);

    type Update = ();

    type Query = ();

    type Value = u64;

    type State = PNCounterState;

    open spec fn obeys_element_model() -> bool {
        true
    }

    open spec fn state_of(payload: &(usize, Vec<u64>, Vec<u64>)) -> PNCounterState {
        PNCounterState { id: payload.0, positive: payload.1@, negative: payload.2@ }
    }

    closed spec fn state(&self) -> PNCounterState {
        PNCounterState { id: self.id, positive: self.positive@, negative: self.negative@ }
    }

    open spec fn valid(s: PNCounterState) -> bool {
        &&& s.positive.len() == s.negative.len()
        &&& s.id < s.positive.len()
    }

    open spec fn same_shape(a: PNCounterState, b: PNCounterState) -> bool {
        &&& a.positive.len() == b.positive.len()
        &&& a.negative.len() == b.negative.len()
    }

    open spec fn leq(a: PNCounterState, b: PNCounterState) -> bool {
        &&& pointwise_le(a.positive, b.positive)
        &&& pointwise_le(a.negative, b.negative)
    }

    open spec fn join(a: PNCounterState, b: PNCounterState) -> PNCounterState {
        PNCounterState {
            id: least(a.id, b.id),
            positive: pointwise_max(a.positive, b.positive),
            negative: pointwise_max(a.negative, b.negative),
        }
    }

    open spec fn ambiguous(a: PNCounterState, b: PNCounterState) -> bool {
        false
    }

    open spec fn can_grow(s: PNCounterState, update: ()) -> bool {
        s.positive[s.id as int] < u64::MAX
    }

    open spec fn grown(s: PNCounterState, update: ()) -> PNCounterState {
        if Self::can_grow(s, update) {
            PNCounterState { positive: raised(s.positive, s.id as int), ..s }
        } else {
            s
        }
    }

    open spec fn answer(s: PNCounterState, query: ()) -> Option<u64> {
        let value = total(s.positive) - total(s.negative);
        if 0 <= value <= u64::MAX {
            Some(value as u64)
        } else {
            None
        }
    }

    fn new(payload: (usize, Vec<u64>, Vec<u64>)) -> (r: Result<Self, Violation>)
        ensures
            r matches Err(e) ==> e == (if payload.1.len() != payload.2.len() {
                Violation::UnevenVectors { positive: payload.1.len(), negative: payload.2.len() }
            } else {
                Violation::IdOutOfRange { id: payload.0, len: payload.1.len() }
            }),
    {
        let (id, positive, negative) = payload;
        match Self::consistent(id, &positive, &negative) {
            Ok(()) => Ok(PNCounter { id, positive, negative }),
            Err(e) => Err(e),
        }
    }

    fn payload(&self) -> (p: (usize, Vec<u64>, Vec<u64>)) {
        proof {
            use_type_invariant(self);
        }
        (self.id, vec_copy(&self.positive), vec_copy(&self.negative))
    }

    fn add(&mut self, update: ()) -> (r: Result<(), Violation>)
        ensures
            r matches Err(e) ==> e == (Violation::CounterExhausted { id: old(self).state().id }),
    {
        proof {
            use_type_invariant(&*self);
        }
        let count = self.positive[self.id];
        if count == u64::MAX {
            return Err(Violation::CounterExhausted { id: self.id });
        }
        self.positive[self.id] = count + 1;
        assert(self.positive@ =~= raised(old(self).positive@, self.id as int));
        Ok(())
    }

    fn le(&self, other: &Self) -> (r: Result<bool, Violation>)
        ensures
            r matches Err(e) ==> e == (Violation::LengthMismatch {
                ours: self.state().positive.len() as usize,
                theirs: other.state().positive.len() as usize,
            }),
    {
        proof {
            use_type_invariant(self);
            use_type_invariant(other);
        }
        match self.compatible_len(other) {
            Ok(_) => Ok(
                vec_le(&self.positive, &other.positive) && vec_le(&self.negative, &other.negative),
            ),
            Err(e) => Err(e),
        }
    }

    fn merge(&self, other: &Self) -> (r: Result<Self, Violation>)
        ensures
            r matches Err(e) ==> e == (Violation::LengthMismatch {
                ours: self.state().positive.len() as usize,
                theirs: other.state().positive.len() as usize,
            }),
    {
        proof {
            use_type_invariant(self);
            use_type_invariant(other);
        }
        match self.compatible_len(other) {
            Ok(_) => Ok(
                PNCounter {
                    id: if self.id <= other.id {
                        self.id
                    } else {
                        other.id
                    },
                    positive: vec_max(&self.positive, &other.positive),
                    negative: vec_max(&self.negative, &other.negative),
                },
            ),
            Err(e) => Err(e),
        }
    }

    fn query(&self, query: &()) -> (r: Result<u64, Violation>)
        ensures
            r matches Err(e) ==> e == Violation::ValueOutOfRange,
    {
        let up = vec_total(&self.positive);
        let down = vec_total(&self.negative);
        if up >= down && up - down <= u64::MAX as u128 {
            Ok((up - down) as u64)
        } else {
            Err(Violation::ValueOutOfRange)
        }
    }

    proof fn lemma_shape_equivalence(a: PNCounterState, b: PNCounterState, c: PNCounterState) {
    }

    proof fn lemma_join_closed(a: PNCounterState, b: PNCounterState) {
    }

    proof fn lemma_merge_associative(x: PNCounterState, y: PNCounterState, z: PNCounterState) {
        lemma_max_associative(x.positive, y.positive, z.positive);
        lemma_max_associative(x.negative, y.negative, z.negative);
    }

    proof fn lemma_merge_commutative(x: PNCounterState, y: PNCounterState) {
        lemma_max_commutative(x.positive, y.positive);
        lemma_max_commutative(x.negative, y.negative);
    }

    proof fn lemma_merge_idempotent(x: PNCounterState, y: PNCounterState) {
        lemma_max_idempotent(x.positive, y.positive);
        lemma_max_idempotent(x.negative, y.negative);
    }

    proof fn lemma_add_monotonic(x: PNCounterState, update: ()) {
    }

    proof fn lemma_leq_preorder(x: PNCounterState, y: PNCounterState, z: PNCounterState) {
    }

    proof fn lemma_join_least_upper_bound(
        x: PNCounterState,
        y: PNCounterState,
        z: PNCounterState,
    ) {
    }
}

impl Shrink for PNCounter {
    open spec fn can_shrink(s: PNCounterState, update: ()) -> bool {
        s.negative[s.id as int] < u64::MAX
    }

    open spec fn shrunk(s: PNCounterState, update: ()) -> PNCounterState {
        if Self::can_shrink(s, update) {
            PNCounterState { negative: raised(s.negative, s.id as int), ..s }
        } else {
            s
        }
    }

    fn del(&mut self, update: ()) -> (r: Result<(), Violation>)
        ensures
            r matches Err(e) ==> e == (Violation::CounterExhausted { id: old(self).state().id }),
    {
        proof {
            use_type_invariant(&*self);
        }
        let count = self.negative[self.id];
        if count == u64::MAX {
            return Err(Violation::CounterExhausted { id: self.id });
        }
        self.negative[self.id] = count + 1;
        assert(self.negative@ =~= raised(old(self).negative@, self.id as int));
        Ok(())
    }

    proof fn lemma_del_monotonic(x: PNCounterState, update: ()) {
    }
}

/// Two counters that are below each other hold the same counts. Their ids may differ.
pub proof fn lemma_leq_antisymmetric(x: PNCounterState, y: PNCounterState)
    requires
        PNCounter::same_shape(x, y),
        PNCounter::leq(x, y),
        PNCounter::leq(y, x),
    ensures
        x.positive == y.positive,
        x.negative == y.negative,
{
    assert(x.positive =~= y.positive);
    assert(x.negative =~= y.negative);
}

/// An increment that is accepted raises the difference of the two sums, which is the value,
/// by one, and a decrement that is accepted lowers it by one.
pub proof fn lemma_value_steps(s: PNCounterState)
    requires
        <PNCounter as Grow>::valid(s),
    ensures
        PNCounter::can_grow(s, ()) ==> total(PNCounter::grown(s, ()).positive) - total(
            PNCounter::grown(s, ()).negative,
        ) == total(s.positive) - total(s.negative) + 1,
        PNCounter::can_shrink(s, ()) ==> total(PNCounter::shrunk(s, ()).positive) - total(
            PNCounter::shrunk(s, ()).negative,
        ) == total(s.positive) - total(s.negative) - 1,
{
    if PNCounter::can_grow(s, ()) {
        lemma_total_raised(s.positive, s.id as int);
    }
    if PNCounter::can_shrink(s, ()) {
        lemma_total_raised(s.negative, s.id as int);
    }
}

} // verus!
