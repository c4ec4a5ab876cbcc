//! State-based conflict-free replicated data types.
//!
//! A replica holds one of the types below, updates it on its own and, now and then, merges in
//! the state of another replica. Each type is a join-semilattice: `merge` is its join, and
//! `add` and `del` only ever move a state upwards. Replicas that have seen the same updates
//! therefore hold the same state, in whatever order and however often they merged.
//!
//! [`Grow`] says what every such type offers and which laws it obeys; [`Shrink`] adds removal.
//! An operation that is asked for something its type rules out changes nothing and reports a
//! [`Violation`].
pub mod counts;
pub mod elements;
pub mod g_counter;
pub mod g_set;
pub mod lww_register;
pub mod one_way_boolean;
pub mod pn_counter;
pub mod traits;
pub mod two_phase_set;
pub mod violation;

pub use crate::g_counter::{GCounter, GCounterState};
pub use crate::g_set::GSet;
pub use crate::lww_register::{LWWRegister, LWWState};
pub use crate::one_way_boolean::OneWayBoolean;
pub use crate::pn_counter::{PNCounter, PNCounterState};
pub use crate::traits::{Grow, Shrink};
pub use crate::two_phase_set::{TwoPhaseSet, TwoPhaseState};
pub use crate::violation::Violation;
