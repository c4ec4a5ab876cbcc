use std::collections::HashSet;
use std::hash::Hash;
use vstd::prelude::*;
use vstd::std_specs::hash::obeys_key_model;
use vstd::std_specs::iter::{IteratorSpec, VerusForLoopWrapper};

verus! {

/// A clone of an element is the element again.
pub open spec fn faithful_clone<X: Clone>() -> bool {
    forall|a: X, b: X| #[trigger] cloned(a, b) ==> a == b
}

/// What a set asks of its elements: equal elements hash alike, `==` holds of two elements
/// exactly when they are the same, and a clone is the element again.
pub open spec fn obeys_set_model<X: Clone>() -> bool {
    obeys_key_model::<X>() && faithful_clone::<X>()
}

/// A set with a clone of every element of `src`.
///
/// It asks nothing of the elements, so that `Clone` can be built on it, and says what it made
/// only where they obey the model. For the same reason it walks `src` step by step, as many
/// steps as `src` has elements: a `for` loop would have to know at its start what the walk
/// will yield, and that is known only of elements that obey the model.
pub(crate) fn clone_set<X: Clone + Eq + Hash>(src: &HashSet<X>) -> (out: HashSet<X>)
    ensures
        obeys_set_model::<X>() ==> out@ == src@,
{
    let ghost items = src.iter().remaining().unref();
    let wanted = src.len();
    let mut out: HashSet<X> = HashSet::new();
    let mut rest = VerusForLoopWrapper::new(src.iter(), Ghost(None));
    let mut done: usize = 0;
    while done < wanted
        invariant
            done <= wanted,
            rest.wf(),
            obeys_set_model::<X>() ==> {
                &&& items.to_set() == src@
                &&& items.len() == wanted
                &&& rest.seq().unref() == items
                &&& rest.index() == done
                &&& out@ == items.take(done as int).to_set()
            },
        decreases wanted - done,
    {
        match rest.next() {
            Some(x) => {
                let c = x.clone();
                proof {
                    if obeys_set_model::<X>() {
                        assert(cloned(*x, c));
                        assert(items[done as int] == c);
                        assert(items.take(done + 1) =~= items.take(done as int).push(c));
                        items.take(done as int).lemma_push_to_set_commute(c);
                    }
                }
                out.insert(c);
            },
            None => {
                return out;
            },
        }
        done += 1;
    }
    assert(obeys_set_model::<X>() ==> items.take(wanted as int) =~= items);
    out
}

/// Adds a clone of every element of `src` to `out`.
pub(crate) fn absorb<X: Clone + Eq + Hash>(out: &mut HashSet<X>, src: &HashSet<X>)
    requires
        obeys_set_model::<X>(),
    ensures
        final(out)@ == old(out)@.union(src@),
{
    let ghost before = out@;
    let ghost items = src.iter().remaining().unref();
    assert(items.to_set() == src@);
    for x in it: src.iter()
        invariant
            obeys_set_model::<X>(),
            it.seq().unref() == items,
            out@ == before.union(items.take(it.index()).to_set()),
    {
        let c = x.clone();
        proof {
            assert(cloned(*x, c));
            assert(items[it.index()] == c);
            assert(items.take(it.index() + 1) =~= items.take(it.index()).push(c));
            items.take(it.index()).lemma_push_to_set_commute(c);
        }
        out.insert(c);
    }
    assert(items.take(items.len() as int) =~= items);
}

/// Whether every element of `a` is an element of `b`.
pub(crate) fn is_subset<X: Clone + Eq + Hash>(a: &HashSet<X>, b: &HashSet<X>) -> (r: bool)
    requires
        obeys_set_model::<X>(),
    ensures
        r == a@.subset_of(b@),
{
    let ghost items = a.iter().remaining().unref();
    assert(items.to_set() == a@);
    for x in it: a.iter()
        invariant
            obeys_set_model::<X>(),
            it.seq().unref() == items,
            items.to_set() == a@,
            forall|j: int| 0 <= j < it.index() ==> b@.contains(#[trigger] items[j]),
    {
        if !b.contains(x) {
            assert(items[it.index()] == *x);
            assert(items.contains(*x));
            return false;
        }
    }
    assert forall|e: X| a@.contains(e) implies b@.contains(e) by {
        assert(items.contains(e));
    }
    true
}

} // verus!
