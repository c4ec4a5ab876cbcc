use crate::violation::Violation;
use vstd::prelude::*;

verus! {

/// A replicated data type that only grows.
///
/// Contracts and laws speak of the `State` of an instance: the mathematical value of its
/// payload. The states of one shape form a join-semilattice under `leq`, with `join` as the
/// least upper bound; `merge` computes `join`, and `add` moves a state upwards.
pub trait Grow: Sized + Clone {
    /// All that an instance holds; enough to build an equal instance with `new`.
    type Payload;

    /// What `add` takes.
    type Update;

    /// What `query` takes.
    type Query;

    /// What `query` answers.
    type Value;

    /// The mathematical value of a payload.
    type State;

    /// Hashing, equality and cloning of the element type do what their names say. Holds
    /// trivially for a type without elements of a caller's choosing.
    spec fn obeys_element_model() -> bool;

    /// The state that a payload stands for.
    spec fn state_of(payload: &Self::Payload) -> Self::State;

    /// The state of this instance.
    spec fn state(&self) -> Self::State;

    /// The structural invariant of a state. Every instance has a valid state.
    spec fn valid(s: Self::State) -> bool;

    /// Whether two states can be compared and merged.
    spec fn same_shape(a: Self::State, b: Self::State) -> bool;

    /// The partial order of the semilattice.
    spec fn leq(a: Self::State, b: Self::State) -> bool;

    /// The least upper bound of two states of the same shape.
    spec fn join(a: Self::State, b: Self::State) -> Self::State;

    /// Whether `join` has to pick between two states that the order does not tell apart, so
    /// that the result depends on which came first.
    spec fn ambiguous(a: Self::State, b: Self::State) -> bool;

    /// Whether `add` accepts the update in this state.
    spec fn can_grow(s: Self::State, update: Self::Update) -> bool;

    /// The state after `add`: `s` itself where the update is refused.
    spec fn grown(s: Self::State, update: Self::Update) -> Self::State;

    /// The answer to a query, where the state has one that `Value` can hold.
    spec fn answer(s: Self::State, query: Self::Query) -> Option<Self::Value>;

    /// Builds an instance from a payload, which is refused unless it is valid.
    fn new(payload: Self::Payload) -> (r: Result<Self, Violation>)
        ensures
            r is Ok <==> Self::valid(Self::state_of(&payload)),
            r matches Ok(built) ==> built.state() == Self::state_of(&payload),
    ;

    /// A copy of all that this instance holds.
    fn payload(&self) -> (p: Self::Payload)
        requires
            Self::obeys_element_model(),
        ensures
            Self::state_of(&p) == self.state(),
            Self::valid(self.state()),
    ;

    /// Moves this instance upwards by one update, or leaves it as it is and says why.
    fn add(&mut self, update: Self::Update) -> (r: Result<(), Violation>)
        requires
            Self::obeys_element_model(),
        ensures
            r is Ok <==> Self::can_grow(old(self).state(), update),
            final(self).state() == Self::grown(old(self).state(), update),
            r is Err ==> final(self).state() == old(self).state(),
    ;

    /// Whether this instance is below `other` in the order; refused for different shapes.
    fn le(&self, other: &Self) -> (r: Result<bool, Violation>)
        requires
            Self::obeys_element_model(),
        ensures
            r is Ok <==> Self::same_shape(self.state(), other.state()),
            r matches Ok(below) ==> below == Self::leq(self.state(), other.state()),
    ;

    /// The join of this instance and `other`, as a new instance; refused for different shapes.
    fn merge(&self, other: &Self) -> (r: Result<Self, Violation>)
        requires
            Self::obeys_element_model(),
        ensures
            r is Ok <==> Self::same_shape(self.state(), other.state()),
            r matches Ok(merged) ==> merged.state() == Self::join(self.state(), other.state()),
    ;

    /// Reads a value off this instance; refused where `Value` cannot hold the answer.
    fn query(&self, query: &Self::Query) -> (r: Result<Self::Value, Violation>)
        requires
            Self::obeys_element_model(),
        ensures
            r is Ok <==> Self::answer(self.state(), *query) is Some,
            r matches Ok(v) ==> Self::answer(self.state(), *query) == Some(v),
    ;

    /// Having the same shape is an equivalence.
    proof fn lemma_shape_equivalence(a: Self::State, b: Self::State, c: Self::State)
        ensures
            Self::same_shape(a, a),
            Self::same_shape(a, b) ==> Self::same_shape(b, a),
            Self::same_shape(a, b) && Self::same_shape(b, c) ==> Self::same_shape(a, c),
    ;

    /// The join of two valid states is valid and has their shape.
    proof fn lemma_join_closed(a: Self::State, b: Self::State)
        requires
            Self::valid(a),
            Self::valid(b),
            Self::same_shape(a, b),
        ensures
            Self::valid(Self::join(a, b)),
            Self::same_shape(a, Self::join(a, b)),
    ;

    /// Merging is associative.
    proof fn lemma_merge_associative(x: Self::State, y: Self::State, z: Self::State)
        requires
            Self::valid(x),
            Self::valid(y),
            Self::valid(z),
            Self::same_shape(x, y),
            Self::same_shape(y, z),
        ensures
            Self::join(x, Self::join(y, z)) == Self::join(Self::join(x, y), z),
    ;

    /// Merging is commutative, wherever the order leaves `join` no choice.
    proof fn lemma_merge_commutative(x: Self::State, y: Self::State)
        requires
            Self::valid(x),
            Self::valid(y),
            Self::same_shape(x, y),
            !Self::ambiguous(x, y),
        ensures
            Self::join(x, y) == Self::join(y, x),
    ;

    /// Merging a state in a second time changes nothing.
    proof fn lemma_merge_idempotent(x: Self::State, y: Self::State)
        requires
            Self::valid(x),
            Self::valid(y),
            Self::same_shape(x, y),
        ensures
            Self::join(Self::join(x, y), y) == Self::join(x, y),
    ;

    /// `add` never moves a state downwards, and keeps it valid and in shape.
    proof fn lemma_add_monotonic(x: Self::State, update: Self::Update)
        requires
            Self::valid(x),
        ensures
            Self::valid(Self::grown(x, update)),
            Self::same_shape(x, Self::grown(x, update)),
            Self::leq(x, Self::grown(x, update)),
            !Self::can_grow(x, update) ==> Self::grown(x, update) == x,
    ;

    /// The order is reflexive and transitive.
    proof fn lemma_leq_preorder(x: Self::State, y: Self::State, z: Self::State)
        requires
            Self::valid(x),
            Self::valid(y),
            Self::valid(z),
            Self::same_shape(x, y),
            Self::same_shape(y, z),
        ensures
            Self::leq(x, x),
            Self::leq(x, y) && Self::leq(y, z) ==> Self::leq(x, z),
    ;

    /// The join is above both states, and below every state that is above both.
    proof fn lemma_join_least_upper_bound(x: Self::State, y: Self::State, z: Self::State)
        requires
            Self::valid(x),
            Self::valid(y),
            Self::valid(z),
            Self::same_shape(x, y),
            Self::same_shape(y, z),
        ensures
            Self::leq(x, Self::join(x, y)),
            Self::leq(y, Self::join(x, y)),
            Self::leq(x, z) && Self::leq(y, z) ==> Self::leq(Self::join(x, y), z),
    ;
}

/// A replicated data type that can also take things away, by recording that they are gone.
pub trait Shrink: Grow {
    /// Whether `del` accepts the update in this state.
    spec fn can_shrink(s: Self::State, update: Self::Update) -> bool;

    /// The state after `del`: `s` itself where the update is refused.
    spec fn shrunk(s: Self::State, update: Self::Update) -> Self::State;

    /// Records one removal, or leaves this instance as it is and says why.
    fn del(&mut self, update: Self::Update) -> (r: Result<(), Violation>)
        requires
            Self::obeys_element_model(),
        ensures
            r is Ok <==> Self::can_shrink(old(self).state(), update),
            final(self).state() == Self::shrunk(old(self).state(), update),
            r is Err ==> final(self).state() == old(self).state(),
    ;

    /// `del` never moves a state downwards, and keeps it valid and in shape.
    proof fn lemma_del_monotonic(x: Self::State, update: Self::Update)
        requires
            Self::valid(x),
        ensures
            Self::valid(Self::shrunk(x, update)),
            Self::same_shape(x, Self::shrunk(x, update)),
            Self::leq(x, Self::shrunk(x, update)),
            !Self::can_shrink(x, update) ==> Self::shrunk(x, update) == x,
    ;
}

/// A payload that `new` accepts is the payload that the new instance hands back.
pub proof fn lemma_payload_round_trip<T: Grow>(payload: T::Payload, built: T, reported: T::Payload)
    requires
        T::valid(T::state_of(&payload)),
        built.state() == T::state_of(&payload),
        T::state_of(&reported) == built.state(),
    ensures
        T::state_of(&reported) == T::state_of(&payload),
{
}

} // verus!
