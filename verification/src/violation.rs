use vstd::prelude::*;

verus! {

/// Why an operation was refused.
///
/// A refused operation leaves its receiver as it was. Each variant carries what is needed to
/// tell which rule was broken, and by which values.
#[derive(Clone, Copy, Debug, PartialEq, Eq, Structural)]
pub enum Violation {
    /// The two count vectors of one payload differ in length.
    UnevenVectors { positive: usize, negative: usize },
    /// The replica id is no index into the count vector, whose length is `len`.
    IdOutOfRange { id: usize, len: usize },
    /// Two counters were built for different numbers of replicas.
    LengthMismatch { ours: usize, theirs: usize },
    /// The count of replica `id` has reached `u64::MAX` and cannot be raised.
    CounterExhausted { id: usize },
    /// The value of a counter does not fit the type it is reported in.
    ValueOutOfRange,
    /// The element to delete is not a live member of the set.
    NotAMember,
    /// The update is stamped earlier than the value it is to replace.
    StaleTimestamp { stored: u128, offered: u128 },
}

} // verus!
