use crate::elements::faithful_clone;
use crate::traits::Grow;
use crate::violation::Violation;
use vstd::prelude::*;

verus! {

/// A register that keeps the value written last.
///
/// Each value comes with the time at which it was written, taken from a clock that the caller
/// supplies and that must not run backwards. One register is below another where its time is
/// not later; merging keeps the register with the later time and, where the times are equal,
/// the first of the two.
#[derive(Debug)]
pub struct LWWRegister<X: Clone + Eq> {
    value: X,
    timestamp: u128,
}

/// The state of an [`LWWRegister`].
pub struct LWWState<X> {
    /// The value written last.
    pub value: X,
    /// When it was written.
    pub timestamp: u128,
}

impl<X: Clone + Eq> Clone for LWWRegister<X> {
    fn clone(&self) -> (r: Self)
        ensures
            faithful_clone::<X>() ==> r.state() == self.state(),
    {
        let value = self.value.clone();
        assert(cloned(self.value, value));
        LWWRegister { value, timestamp: self.timestamp }
    }
}

impl<X: Clone + Eq> Grow for LWWRegister<X> {
    type Payload = (X, u128);

    type Update = (X, u128);

    type Query = ();

    type Value = X;

    type State = LWWState<X>;

    open spec fn obeys_element_model() -> bool {
        faithful_clone::<X>()
    }

    open spec fn state_of(payload: &(X, u128)) -> LWWState<X> {
        LWWState { value: payload.0, timestamp: payload.1 }
    }

    closed spec fn state(&self) -> LWWState<X> {
        LWWState { value: self.value, timestamp: self.timestamp }
    }

    open spec fn valid(s: LWWState<X>) -> bool {
        true
    }

    open spec fn same_shape(a: LWWState<X>, b: LWWState<X>) -> bool {
        true
    }

    open spec fn leq(a: LWWState<X>, b: LWWState<X>) -> bool {
        a.timestamp <= b.timestamp
    }

    open spec fn join(a: LWWState<X>, b: LWWState<X>) -> LWWState<X> {
        if a.timestamp < b.timestamp {
            b
        } else {
            a
        }
    }

    open spec fn ambiguous(a: LWWState<X>, b: LWWState<X>) -> bool {
        a.timestamp == b.timestamp && a.value != b.value
    }

    open spec fn can_grow(s: LWWState<X>, update: (X, u128)) -> bool {
        s.timestamp <= update.1
    }

    open spec fn grown(s: LWWState<X>, update: (X, u128)) -> LWWState<X> {
        if s.timestamp <= update.1 {
            LWWState { value: update.0, timestamp: update.1 }
        } else {
            s
        }
    }

    open spec fn answer(s: LWWState<X>, query: ()) -> Option<X> {
        Some(s.value)
    }

    fn new(payload: (X, u128)) -> (r: Result<Self, Violation>) {
        let (value, timestamp) = payload;
        Ok(LWWRegister { value, timestamp })
    }

    fn payload(&self) -> (p: (X, u128)) {
        let value = self.value.clone();
        assert(cloned(self.value, value));
        (value, self.timestamp)
    }

    fn add(&mut self, update: (X, u128)) -> (r: Result<(), Violation>)
        ensures
            r matches Err(e) ==> e == (Violation::StaleTimestamp {
                stored: old(self).state().timestamp,
                offered: update.1,
            }),
    {
        let (value, now) = update;
        if self.timestamp > now {
            return Err(Violation::StaleTimestamp { stored: self.timestamp, offered: now });
        }
        self.value = value;
        self.timestamp = now;
        Ok(())
    }

    fn le(&self, other: &Self) -> (r: Result<bool, Violation>) {
        Ok(self.timestamp <= other.timestamp)
    }

    fn merge(&self, other: &Self) -> (r: Result<Self, Violation>) {
        let later = if self.timestamp < other.timestamp {
            other
        } else {
            self
        };
        let value = later.value.clone();
        assert(cloned(later.value, value));
        Ok(LWWRegister { value, timestamp: later.timestamp })
    }

    fn query(&self, query: &()) -> (r: Result<X, Violation>) {
        let value = self.value.clone();
        assert(cloned(self.value, value));
        Ok(value)
    }

    proof fn lemma_shape_equivalence(a: LWWState<X>, b: LWWState<X>, c: LWWState<X>) {
    }

    proof fn lemma_join_closed(a: LWWState<X>, b: LWWState<X>) {
    }

    proof fn lemma_merge_associative(x: LWWState<X>, y: LWWState<X>, z: LWWState<X>) {
    }

    proof fn lemma_merge_commutative(x: LWWState<X>, y: LWWState<X>) {
    }

    proof fn lemma_merge_idempotent(x: LWWState<X>, y: LWWState<X>) {
    }

    proof fn lemma_add_monotonic(x: LWWState<X>, update: (X, u128)) {
    }

    proof fn lemma_leq_preorder(x: LWWState<X>, y: LWWState<X>, z: LWWState<X>) {
    }

    proof fn lemma_join_least_upper_bound(x: LWWState<X>, y: LWWState<X>, z: LWWState<X>) {
    }
}

/// Two registers that are below each other were written at the same time. Their values may
/// differ: the order does not look at them.
pub proof fn lemma_leq_antisymmetric<X: Clone + Eq>(x: LWWState<X>, y: LWWState<X>)
    requires
        LWWRegister::<X>::leq(x, y),
        LWWRegister::<X>::leq(y, x),
    ensures
        x.timestamp == y.timestamp,
{
}

/// Where two registers were written at different times, merging gives the one written later,
/// in whichever order they are merged.
pub proof fn lemma_later_write_wins<X: Clone + Eq>(x: LWWState<X>, y: LWWState<X>)
    requires
        x.timestamp < y.timestamp,
    ensures
        LWWRegister::<X>::join(x, y) == y,
        LWWRegister::<X>::join(y, x) == y,
{
}

} // verus!
