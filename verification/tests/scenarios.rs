use cvrdt_exposition::{
    GCounter, GSet, Grow, LWWRegister, OneWayBoolean, PNCounter, Shrink, TwoPhaseSet, Violation,
};
use std::collections::HashSet;

fn chars(s: &str) -> HashSet<char> {
    s.chars().collect()
}

#[test]
fn g_counter_replicas_add_and_merge() {
    let mut x = GCounter::new((0, vec![0; 3])).unwrap();
    let mut y = GCounter::new((1, vec![0; 3])).unwrap();
    assert_eq!(x.add(()), Ok(()));
    assert_eq!(x.add(()), Ok(()));
    assert_eq!(y.add(()), Ok(()));
    let merged = x.merge(&y).unwrap();
    assert_eq!(merged.payload(), (0, vec![2, 1, 0]));
    assert_eq!(merged.query(&()), Ok(3));
    assert_eq!(y.merge(&x).unwrap().payload(), (0, vec![2, 1, 0]));
}

#[test]
fn g_counter_merges_with_a_third_replica() {
    let mut x = GCounter::new((0, vec![0; 3])).unwrap();
    x.add(()).unwrap();
    assert_eq!(x.payload(), (0, vec![1, 0, 0]));
    assert_eq!(x.query(&()), Ok(1));
    let mut y = GCounter::new((1, vec![0; 3])).unwrap();
    y.add(()).unwrap();
    y.add(()).unwrap();
    assert_eq!(x.merge(&y).unwrap().payload(), (0, vec![1, 2, 0]));
    let z = GCounter::new((2, vec![0, 0, 3])).unwrap();
    let all = x.merge(&y).unwrap().merge(&z).unwrap();
    assert_eq!(x.le(&all), Ok(true));
    assert_eq!(all.payload(), (0, vec![1, 2, 3]));
    assert_eq!(x.merge(&y.merge(&z).unwrap()).unwrap().payload(), all.payload());
    assert_eq!(all.query(&()), Ok(6));
}

#[test]
fn pn_counter_adds_and_deletes() {
    let mut x = PNCounter::new((0, vec![0; 2], vec![0; 2])).unwrap();
    assert_eq!(x.add(()), Ok(()));
    assert_eq!(x.del(()), Ok(()));
    assert_eq!(x.add(()), Ok(()));
    assert_eq!(x.add(()), Ok(()));
    assert_eq!(x.payload(), (0, vec![3, 0], vec![1, 0]));
    assert_eq!(x.query(&()), Ok(2));
}

#[test]
fn pn_counter_merges_both_vectors() {
    let mut x = PNCounter::new((0, vec![0; 2], vec![0; 2])).unwrap();
    x.add(()).unwrap();
    x.del(()).unwrap();
    x.add(()).unwrap();
    x.add(()).unwrap();
    let y = PNCounter::new((1, vec![0, 3], vec![0, 0])).unwrap();
    let z = x.merge(&y).unwrap();
    assert_eq!(z.payload(), (0, vec![3, 3], vec![1, 0]));
    assert_eq!(z.payload(), y.merge(&x).unwrap().payload());
    assert_eq!(z.query(&()), Ok(5));
}

#[test]
fn g_set_merge_is_union_in_either_order() {
    let x = GSet::new(chars("abc")).unwrap();
    let y = GSet::new(chars("cdefg")).unwrap();
    assert_eq!(x.merge(&y).unwrap().payload(), chars("abcdefg"));
    assert_eq!(y.merge(&x).unwrap().payload(), chars("abcdefg"));
}

#[test]
fn g_set_adds_and_answers() {
    let mut x = GSet::new(HashSet::new()).unwrap();
    for c in "abc".chars() {
        assert_eq!(x.add(c), Ok(()));
    }
    assert_eq!(x.query(&'a'), Ok(true));
    assert_eq!(x.query(&'z'), Ok(false));
    assert_eq!(x.le(&GSet::new(chars("abcdef")).unwrap()), Ok(true));
    assert_eq!(GSet::new(chars("abcdef")).unwrap().le(&x), Ok(false));
    let y = GSet::new(chars("cdefg")).unwrap();
    let z = GSet::new(chars("8675309abcdefg")).unwrap();
    assert_eq!(
        x.merge(&y.merge(&z).unwrap()).unwrap().payload(),
        x.merge(&y).unwrap().merge(&z).unwrap().payload()
    );
}

#[test]
fn two_phase_set_delete_is_final() {
    let mut x = TwoPhaseSet::new((HashSet::new(), HashSet::new())).unwrap();
    for c in "abc".chars() {
        assert_eq!(x.add(c), Ok(()));
    }
    assert_eq!(x.del('c'), Ok(()));
    assert_eq!(x.query(&'c'), Ok(false));
    assert_eq!(x.query(&'a'), Ok(true));
    assert_eq!(x.query(&'z'), Ok(false));
    assert_eq!(x.del('z'), Err(Violation::NotAMember));
    assert_eq!(x.payload(), (chars("abc"), chars("c")));
    assert_eq!(x.add('c'), Ok(()));
    assert_eq!(x.query(&'c'), Ok(false));
    assert_eq!(x.del('c'), Err(Violation::NotAMember));
}

#[test]
fn two_phase_set_delete_on_empty_set_is_refused() {
    let mut x: TwoPhaseSet<&str> = TwoPhaseSet::new((HashSet::new(), HashSet::new())).unwrap();
    assert_eq!(x.del("never added"), Err(Violation::NotAMember));
    assert_eq!(x.payload(), (HashSet::new(), HashSet::new()));
}

#[test]
fn two_phase_set_merges_part_by_part() {
    let mut x = TwoPhaseSet::new((HashSet::new(), HashSet::new())).unwrap();
    for c in "abc".chars() {
        x.add(c).unwrap();
    }
    x.del('c').unwrap();
    let y = TwoPhaseSet::new((chars("abcdef"), HashSet::new())).unwrap();
    assert_eq!(x.merge(&y).unwrap().payload(), (chars("abcdef"), chars("c")));
    assert_eq!(x.merge(&y).unwrap().payload(), y.merge(&x).unwrap().payload());
    assert_eq!(x.merge(&y).unwrap().query(&'c'), Ok(false));
    assert_eq!(x.merge(&y).unwrap().query(&'d'), Ok(true));
    let z = TwoPhaseSet::new((chars("8675309abcdefg"), chars("toremove"))).unwrap();
    assert_eq!(
        x.merge(&y.merge(&z).unwrap()).unwrap().payload(),
        x.merge(&y).unwrap().merge(&z).unwrap().payload()
    );
}

#[test]
fn lww_register_keeps_the_last_write() {
    let (t0, t1, t2, t3) = (10u128, 20u128, 30u128, 40u128);
    let mut x = LWWRegister::new(('a', t0)).unwrap();
    assert_eq!(x.add(('b', t1)), Ok(()));
    assert_eq!(x.add(('c', t2)), Ok(()));
    assert_eq!(x.query(&()), Ok('c'));
    assert_eq!(x.payload(), ('c', t2));
    let y = LWWRegister::new(('z', t3)).unwrap();
    assert_eq!(x.le(&y), Ok(true));
    assert_eq!(y.le(&x), Ok(false));
    let z = x.merge(&y).unwrap();
    assert_eq!(z.query(&()), Ok('z'));
    assert_eq!(z.payload(), ('z', t3));
    assert_eq!(y.merge(&x).unwrap().payload(), z.payload());
}

#[test]
fn lww_register_refuses_a_clock_that_ran_backwards() {
    let mut x = LWWRegister::new(('a', 1729u128)).unwrap();
    assert_eq!(
        x.add(('b', 1728)),
        Err(Violation::StaleTimestamp { stored: 1729, offered: 1728 })
    );
    assert_eq!(x.payload(), ('a', 1729));
    assert_eq!(x.add(('b', 1729)), Ok(()));
    assert_eq!(x.payload(), ('b', 1729));
}

#[test]
fn lww_register_merge_keeps_the_first_on_a_tie() {
    let x = LWWRegister::new(('x', 5u128)).unwrap();
    let y = LWWRegister::new(('y', 5u128)).unwrap();
    assert_eq!(x.merge(&y).unwrap().payload(), ('x', 5));
    assert_eq!(y.merge(&x).unwrap().payload(), ('y', 5));
}

#[test]
fn one_way_boolean_stays_true() {
    let mut x = OneWayBoolean::new(false).unwrap();
    assert_eq!(x.payload(), false);
    assert_eq!(x.query(&()), Ok(false));
    assert_eq!(x.add(()), Ok(()));
    assert_eq!(x.payload(), true);
    assert_eq!(x.query(&()), Ok(true));
    assert_eq!(x.add(()), Ok(()));
    assert_eq!(x.payload(), true);
    for payload in vec![true, false] {
        let y = OneWayBoolean::new(payload).unwrap();
        assert_eq!(x.merge(&y).unwrap().payload(), true);
        assert_eq!(y.merge(&x).unwrap().payload(), true);
        assert_eq!(y.le(&x), Ok(true));
    }
}

#[test]
fn one_way_boolean_order_and_join() {
    let f = OneWayBoolean::new(false).unwrap();
    let t = OneWayBoolean::new(true).unwrap();
    assert_eq!(f.le(&f), Ok(true));
    assert_eq!(f.le(&t), Ok(true));
    assert_eq!(t.le(&f), Ok(false));
    assert_eq!(t.le(&t), Ok(true));
    assert_eq!(f.merge(&f).unwrap().payload(), false);
    assert_eq!(f.merge(&t).unwrap().payload(), true);
    assert_eq!(t.merge(&f).unwrap().payload(), true);
    assert_eq!(t.merge(&t).unwrap().payload(), true);
}
