use vstd::prelude::*;

verus! {

/// The smaller of two replica ids.
pub open spec fn least(a: usize, b: usize) -> usize {
    if a <= b {
        a
    } else {
        b
    }
}

/// Every count of `a` is at most the count of `b` for the same replica.
pub open spec fn pointwise_le(a: Seq<u64>, b: Seq<u64>) -> bool {
    forall|i: int| 0 <= i < a.len() ==> a[i] <= b[i]
}

/// For each replica the larger of its counts in `a` and in `b`.
pub open spec fn pointwise_max(a: Seq<u64>, b: Seq<u64>) -> Seq<u64> {
    Seq::new(
        a.len(),
        |i: int|
            if a[i] >= b[i] {
                a[i]
            } else {
                b[i]
            },
    )
}

/// The sum of all counts.
pub open spec fn total(s: Seq<u64>) -> nat
    decreases s.len(),
{
    if s.len() == 0 {
        0
    } else {
        total(s.drop_last()) + s.last() as nat
    }
}

/// The counts with that of replica `i` raised by one.
pub open spec fn raised(s: Seq<u64>, i: int) -> Seq<u64> {
    s.update(i, (s[i] + 1) as u64)
}

/// The sum of `n` counts is at most `n` times `u64::MAX`.
pub proof fn lemma_total_bound(s: Seq<u64>)
    ensures
        total(s) <= s.len() * u64::MAX,
    decreases s.len(),
{
    if s.len() > 0 {
        lemma_total_bound(s.drop_last());
        assert((s.len() - 1) * u64::MAX + u64::MAX == s.len() * u64::MAX) by (nonlinear_arith);
    }
}

/// Raising one count by one raises the sum by one.
pub proof fn lemma_total_raised(s: Seq<u64>, i: int)
    requires
        0 <= i < s.len(),
        s[i] < u64::MAX,
    ensures
        total(raised(s, i)) == total(s) + 1,
    decreases s.len(),
{
    let r = raised(s, i);
    if i == s.len() - 1 {
        assert(r.drop_last() =~= s.drop_last());
    } else {
        lemma_total_raised(s.drop_last(), i);
        assert(r.drop_last() =~= raised(s.drop_last(), i));
    }
}

/// The maximum is taken replica by replica, so it may be taken in any grouping.
pub proof fn lemma_max_associative(a: Seq<u64>, b: Seq<u64>, c: Seq<u64>)
    requires
        a.len() == b.len(),
        b.len() == c.len(),
    ensures
        pointwise_max(a, pointwise_max(b, c)) == pointwise_max(pointwise_max(a, b), c),
{
    assert(pointwise_max(a, pointwise_max(b, c)) =~= pointwise_max(pointwise_max(a, b), c));
}

/// The maximum does not depend on the order of its operands.
pub proof fn lemma_max_commutative(a: Seq<u64>, b: Seq<u64>)
    requires
        a.len() == b.len(),
    ensures
        pointwise_max(a, b) == pointwise_max(b, a),
{
    assert(pointwise_max(a, b) =~= pointwise_max(b, a));
}

/// Taking the maximum with the same counts a second time changes nothing.
pub proof fn lemma_max_idempotent(a: Seq<u64>, b: Seq<u64>)
    requires
        a.len() == b.len(),
    ensures
        pointwise_max(pointwise_max(a, b), b) == pointwise_max(a, b),
{
    assert(pointwise_max(pointwise_max(a, b), b) =~= pointwise_max(a, b));
}

/// Whether every count of `a` is at most the count of `b` for the same replica.
pub(crate) fn vec_le(a: &Vec<u64>, b: &Vec<u64>) -> (r: bool)
    requires
        a.len() == b.len(),
    ensures
        r == pointwise_le(a@, b@),
{
    let n = a.len();
    let mut i: usize = 0;
    while i < n
        invariant
            i <= n,
            n == a.len(),
            n == b.len(),
            forall|j: int| 0 <= j < i ==> a[j] <= b[j],
        decreases n - i,
    {
        if a[i] > b[i] {
            return false;
        }
        i += 1;
    }
    true
}

/// For each replica the larger of its two counts.
pub(crate) fn vec_max(a: &Vec<u64>, b: &Vec<u64>) -> (m: Vec<u64>)
    requires
        a.len() == b.len(),
    ensures
        m@ == pointwise_max(a@, b@),
{
    let n = a.len();
    let mut m: Vec<u64> = Vec::with_capacity(n);
    let mut i: usize = 0;
    while i < n
        invariant
            i <= n,
            n == a.len(),
            n == b.len(),
            m.len() == i,
            forall|j: int| 0 <= j < i ==> m[j] == pointwise_max(a@, b@)[j],
        decreases n - i,
    {
        let x = a[i];
        let y = b[i];
        m.push(if x >= y { x } else { y });
        i += 1;
    }
    assert(m@ =~= pointwise_max(a@, b@));
    m
}

/// The sum of all counts, in a type wide enough for any vector.
pub(crate) fn vec_total(a: &Vec<u64>) -> (t: u128)
    ensures
        t == total(a@),
{
    let n = a.len();
    let mut t: u128 = 0;
    let mut i: usize = 0;
    while i < n
        invariant
            i <= n,
            n == a.len(),
            t == total(a@.take(i as int)),
        decreases n - i,
    {
        proof {
            let upto = a@.take(i + 1);
            assert(upto.drop_last() =~= a@.take(i as int));
            lemma_total_bound(upto);
            assert((i + 1) * u64::MAX <= usize::MAX * u64::MAX) by (nonlinear_arith)
                requires
                    i + 1 <= usize::MAX,
            ;
            assert(usize::MAX * u64::MAX <= u64::MAX * u64::MAX) by (nonlinear_arith)
                requires
                    usize::MAX <= u64::MAX,
            ;
            assert(u64::MAX * u64::MAX < u128::MAX) by (nonlinear_arith);
        }
        t = t + a[i] as u128;
        i += 1;
    }
    assert(a@.take(n as int) =~= a@);
    t
}

/// A copy of the counts.
pub(crate) fn vec_copy(a: &Vec<u64>) -> (c: Vec<u64>)
    ensures
        c@ == a@,
{
    let c = a.clone();
    assert(c@ =~= a@);
    c
}

} // verus!
