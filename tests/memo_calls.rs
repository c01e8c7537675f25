use bijection::{Bijection, TwoWayMap};
use std::cell::Cell;

#[test]
fn test_only_computes_once() {
    let i = Cell::new(0);
    let mut map_to_n_plus_1 = Bijection::new(|x: i32| {
        i.set(i.get() + 1);
        x + 1
    });
    map_to_n_plus_1.call(10);
    map_to_n_plus_1.call(10);
    assert_eq!(i.get(), 1);
}

#[test]
fn repeated_calls_return_first_result() {
    let count = Cell::new(0);
    let mut b = Bijection::new(|x: i32| {
        count.set(count.get() + 1);
        x + 1
    });
    assert_eq!(b.call(10), 11);
    assert_eq!(b.call(10), 11);
    assert_eq!(b.call(10), 11);
    assert_eq!(count.get(), 1);
}

#[test]
fn fresh_call_matches_direct_computation() {
    let f = |x: i64| x * x - 3;
    let mut b = Bijection::new(f);
    for a in [-4i64, 0, 7, 1000] {
        assert_eq!(b.call(a), f(a));
    }
}

#[test]
fn distinct_inputs_each_computed_once() {
    let count = Cell::new(0);
    let mut b = Bijection::new(|x: u32| {
        count.set(count.get() + 1);
        x * 2
    });
    assert_eq!(b.call(1), 2);
    assert_eq!(b.call(2), 4);
    assert_eq!(b.call(1), 2);
    assert_eq!(b.call(2), 4);
    assert_eq!(count.get(), 2);
}

#[test]
fn string_inputs_are_cached() {
    let count = Cell::new(0);
    let mut b = Bijection::new(|s: String| {
        count.set(count.get() + 1);
        s.len()
    });
    assert_eq!(b.call(String::from("abc")), 3);
    assert_eq!(b.call(String::from("abc")), 3);
    assert_eq!(b.call(String::from("")), 0);
    assert_eq!(count.get(), 2);
}

#[test]
fn failure_is_not_cached() {
    let attempts = Cell::new(0);
    let mut b = Bijection::new(|x: i32| {
        attempts.set(attempts.get() + 1);
        if attempts.get() == 1 {
            Err("first attempt fails")
        } else {
            Ok(x + 1)
        }
    });
    assert_eq!(b.try_call(5), Err("first attempt fails"));
    assert_eq!(b.try_call(5), Ok(6));
    assert_eq!(attempts.get(), 2);
    assert_eq!(b.try_call(5), Ok(6));
    assert_eq!(attempts.get(), 2);
}

#[test]
fn failure_on_one_input_leaves_others_cached() {
    let attempts = Cell::new(0);
    let mut b = Bijection::new(|x: i32| {
        attempts.set(attempts.get() + 1);
        if x < 0 {
            Err(x)
        } else {
            Ok(x * 10)
        }
    });
    assert_eq!(b.try_call(3), Ok(30));
    assert_eq!(b.try_call(-1), Err(-1));
    assert_eq!(b.try_call(-1), Err(-1));
    assert_eq!(b.try_call(3), Ok(30));
    assert_eq!(attempts.get(), 3);
}

#[test]
fn empty_map_has_no_entries() {
    let m: TwoWayMap<i32, i32> = TwoWayMap::empty();
    assert_eq!(m.input(&1), None);
    assert_eq!(m.output(&1), None);
}

#[test]
fn map_is_visible_both_ways() {
    let mut m = TwoWayMap::empty();
    m.map(1, String::from("one"));
    assert_eq!(m.input(&1), Some(&String::from("one")));
    assert_eq!(m.output(&String::from("one")), Some(&1));
    assert_eq!(m.input(&2), None);
    assert_eq!(m.output(&String::from("two")), None);
}

#[test]
fn distinct_keys_are_independent() {
    let mut m = TwoWayMap::empty();
    m.map(1, 10);
    m.map(2, 20);
    assert_eq!(m.input(&1), Some(&10));
    assert_eq!(m.input(&2), Some(&20));
    assert_eq!(m.output(&10), Some(&1));
    assert_eq!(m.output(&20), Some(&2));
}

#[test]
fn shared_output_rebinds_backward() {
    let mut m = TwoWayMap::empty();
    m.map(1, 7);
    m.map(2, 7);
    assert_eq!(m.output(&7), Some(&2));
    assert_eq!(m.input(&1), Some(&7));
    assert_eq!(m.input(&2), Some(&7));
}

#[test]
fn same_input_remapped_replaces_forward() {
    let mut m = TwoWayMap::empty();
    m.map(1, 7);
    m.map(1, 8);
    assert_eq!(m.input(&1), Some(&8));
    assert_eq!(m.output(&8), Some(&1));
    assert_eq!(m.output(&7), Some(&1));
}
