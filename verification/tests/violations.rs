use cvrdt_exposition::{GCounter, Grow, PNCounter, Shrink, Violation};

#[test]
fn g_counter_new_refuses_an_id_outside_the_vector() {
    assert_eq!(
        GCounter::new((1, vec![0])).err(),
        Some(Violation::IdOutOfRange { id: 1, len: 1 })
    );
    assert_eq!(
        GCounter::new((0, vec![])).err(),
        Some(Violation::IdOutOfRange { id: 0, len: 0 })
    );
    assert!(GCounter::new((0, vec![0])).is_ok());
    assert!(GCounter::new((2, vec![7, 8, 9])).is_ok());
}

#[test]
fn g_counter_refuses_to_compare_or_merge_other_lengths() {
    let x = GCounter::new((0, vec![0])).unwrap();
    let y = GCounter::new((1, vec![0, 0])).unwrap();
    let mismatch = Violation::LengthMismatch { ours: 1, theirs: 2 };
    assert_eq!(x.merge(&y).err(), Some(mismatch));
    assert_eq!(x.le(&y), Err(mismatch));
    assert_eq!(x.compatible_len(&y), Err(mismatch));
    assert_eq!(
        y.compatible_len(&x),
        Err(Violation::LengthMismatch { ours: 2, theirs: 1 })
    );
    assert_eq!(y.compatible_len(&y), Ok(2));
    assert_eq!(x.compatible_len(&x), Ok(1));
}

#[test]
fn g_counter_add_stops_at_the_largest_count() {
    let mut x = GCounter::new((1, vec![3, u64::MAX - 1])).unwrap();
    assert_eq!(x.add(()), Ok(()));
    assert_eq!(x.payload(), (1, vec![3, u64::MAX]));
    assert_eq!(x.add(()), Err(Violation::CounterExhausted { id: 1 }));
    assert_eq!(x.payload(), (1, vec![3, u64::MAX]));
}

#[test]
fn g_counter_query_refuses_a_sum_that_does_not_fit() {
    let x = GCounter::new((0, vec![u64::MAX, 0])).unwrap();
    assert_eq!(x.query(&()), Ok(u64::MAX));
    let y = GCounter::new((0, vec![u64::MAX, 1])).unwrap();
    assert_eq!(y.query(&()), Err(Violation::ValueOutOfRange));
    let z = GCounter::new((0, vec![u64::MAX, u64::MAX, u64::MAX])).unwrap();
    assert_eq!(z.query(&()), Err(Violation::ValueOutOfRange));
}

#[test]
fn pn_counter_new_refuses_uneven_vectors() {
    assert_eq!(
        PNCounter::new((0, vec![0], vec![0, 0])).err(),
        Some(Violation::UnevenVectors { positive: 1, negative: 2 })
    );
    assert_eq!(
        PNCounter::new((17, vec![0, 0], vec![0])).err(),
        Some(Violation::UnevenVectors { positive: 2, negative: 1 })
    );
}

#[test]
fn pn_counter_new_refuses_an_id_outside_the_vectors() {
    assert_eq!(
        PNCounter::new((17, vec![0], vec![0])).err(),
        Some(Violation::IdOutOfRange { id: 17, len: 1 })
    );
    assert_eq!(
        PNCounter::new((0, vec![], vec![])).err(),
        Some(Violation::IdOutOfRange { id: 0, len: 0 })
    );
    assert!(PNCounter::new((0, vec![0], vec![0])).is_ok());
}

#[test]
fn pn_counter_consistent_checks_lengths_before_the_id() {
    assert_eq!(PNCounter::consistent(1, &vec![0, 0], &vec![5, 5]), Ok(()));
    assert_eq!(
        PNCounter::consistent(2, &vec![0, 0], &vec![5, 5]),
        Err(Violation::IdOutOfRange { id: 2, len: 2 })
    );
    assert_eq!(
        PNCounter::consistent(9, &vec![0, 0, 0], &vec![5, 5]),
        Err(Violation::UnevenVectors { positive: 3, negative: 2 })
    );
}

#[test]
fn pn_counter_refuses_to_compare_or_merge_other_lengths() {
    let x = PNCounter::new((0, vec![0], vec![0])).unwrap();
    let y = PNCounter::new((1, vec![0, 0], vec![0, 0])).unwrap();
    let mismatch = Violation::LengthMismatch { ours: 1, theirs: 2 };
    assert_eq!(x.merge(&y).err(), Some(mismatch));
    assert_eq!(x.le(&y), Err(mismatch));
    assert_eq!(x.compatible_len(&y), Err(mismatch));
    assert_eq!(y.compatible_len(&y), Ok(2));
}

#[test]
fn pn_counter_add_and_del_stop_at_the_largest_count() {
    let mut x = PNCounter::new((0, vec![u64::MAX], vec![u64::MAX - 1])).unwrap();
    assert_eq!(x.add(()), Err(Violation::CounterExhausted { id: 0 }));
    assert_eq!(x.del(()), Ok(()));
    assert_eq!(x.del(()), Err(Violation::CounterExhausted { id: 0 }));
    assert_eq!(x.payload(), (0, vec![u64::MAX], vec![u64::MAX]));
    assert_eq!(x.query(&()), Ok(0));
}

#[test]
fn pn_counter_query_refuses_a_value_that_does_not_fit() {
    let below = PNCounter::new((0, vec![1, 0], vec![0, 2])).unwrap();
    assert_eq!(below.query(&()), Err(Violation::ValueOutOfRange));
    let above = PNCounter::new((0, vec![u64::MAX, 5], vec![0, 4])).unwrap();
    assert_eq!(above.query(&()), Err(Violation::ValueOutOfRange));
    let wide = PNCounter::new((0, vec![u64::MAX, u64::MAX], vec![u64::MAX, 1])).unwrap();
    assert_eq!(wide.query(&()), Ok(u64::MAX - 1));
    let zero = PNCounter::new((1, vec![4, 4], vec![8, 0])).unwrap();
    assert_eq!(zero.query(&()), Ok(0));
}
