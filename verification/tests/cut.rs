use rustogrammer::conditions::cut::{Cut, MultiCut};
use rustogrammer::conditions::{Condition, ConditionDictionary};
use rustogrammer::parameters::{Event, EventParameter, FlatEvent};
use std::collections::HashSet;

fn bits(v: f64) -> u64 {
    v.to_bits()
}

fn flat(ev: &Event) -> FlatEvent {
    let mut e = FlatEvent::new();
    e.load_event(ev);
    e
}

// Cut

#[test]
fn cut_new_1() {
    let c = Cut::new(12, bits(100.0), bits(200.0));
    assert_eq!(12, c.parameter_id());
    assert_eq!((bits(100.0), bits(200.0)), c.limits());
    assert_eq!(None, c.get_cached_value());
}

#[test]
fn cut_replace_1() {
    let mut c = Cut::new(12, bits(100.0), bits(200.0));
    c.set_cached_value(Some(true)); // must get invalidated.
    c.replace_limits(bits(10.0), bits(20.0));
    assert_eq!(Cut::new(12, bits(10.0), bits(20.0)), c);
    assert_eq!(None, c.get_cached_value());
}

#[test]
fn cut_check_1() {
    let mut c = Cut::new(12, bits(100.0), bits(200.0));
    let e = FlatEvent::new();
    assert!(!c.check(&e));
    assert!(c.get_cached_value().is_some());
    assert!(!c.get_cached_value().unwrap());
    assert!(!c.evaluate(&e));
    c.invalidate_cache();
    assert!(c.get_cached_value().is_none());
}

#[test]
fn cut_check_2() {
    let mut c = Cut::new(12, bits(100.0), bits(200.0));
    let e = flat(&vec![EventParameter::new(12, bits(125.0))]);
    assert!(c.evaluate(&e));
    assert!(c.check(&e));
    assert!(c.get_cached_value().is_some());
    assert!(c.get_cached_value().unwrap());
}

#[test]
fn cut_check_3() {
    let mut c = Cut::new(12, bits(100.0), bits(200.0));
    let e = flat(&vec![EventParameter::new(12, bits(5.0))]);
    assert!(!c.evaluate(&e));
    assert!(!c.check(&e));
    assert!(c.get_cached_value().is_some());
    assert!(!c.get_cached_value().unwrap());
}

#[test]
fn cut_check_uses_cache() {
    // A cached result is returned without looking at the event.
    let mut c = Cut::new(12, bits(100.0), bits(200.0));
    c.set_cached_value(Some(true));
    assert!(c.check(&FlatEvent::new()));
}

#[test]
fn cut_limits_are_included() {
    let mut c = Cut::new(1, bits(100.0), bits(200.0));
    assert!(c.evaluate(&flat(&vec![EventParameter::new(1, bits(100.0))])));
    assert!(c.evaluate(&flat(&vec![EventParameter::new(1, bits(200.0))])));
}

#[test]
fn cut_negative_limits() {
    let mut c = Cut::new(1, bits(-10.0), bits(-1.0));
    assert!(c.evaluate(&flat(&vec![EventParameter::new(1, bits(-5.0))])));
    assert!(!c.evaluate(&flat(&vec![EventParameter::new(1, bits(0.5))])));
    assert!(!c.evaluate(&flat(&vec![EventParameter::new(1, bits(-20.0))])));
}

#[test]
fn cut_foldable() {
    let c = Cut::new(12, bits(100.0), bits(200.0));
    assert!(!c.is_fold());
}

#[test]
fn indict_1() {
    let c = Cut::new(12, bits(100.0), bits(200.0));
    let mut dict = ConditionDictionary::new();
    dict.insert("acut", Condition::Cut(c));
    let s = dict.get("acut").unwrap();
    let none: Vec<bool> = vec![];

    let e = FlatEvent::new();
    assert!(!dict.check(s, &e, &none));
    dict.invalidate_cache();

    let e = flat(&vec![EventParameter::new(12, bits(125.0))]);
    assert!(dict.check(s, &e, &none));
    dict.invalidate_cache();

    let e = flat(&vec![EventParameter::new(12, bits(5.0))]);
    assert!(!dict.check(s, &e, &none));
}

#[test]
fn indict_2() {
    let mut dict = ConditionDictionary::new();
    dict.insert("cut1", Condition::Cut(Cut::new(12, bits(100.0), bits(200.0))));
    dict.insert("cut2", Condition::Cut(Cut::new(15, bits(50.0), bits(100.0))));
    let k1 = dict.get("cut1").unwrap();
    let k2 = dict.get("cut2").unwrap();
    let none: Vec<bool> = vec![];

    let e = FlatEvent::new();
    assert!(!dict.check(k1, &e, &none));
    assert!(!dict.check(k2, &e, &none));
    dict.invalidate_cache();

    let e = flat(&vec![EventParameter::new(12, bits(125.0))]);
    assert!(dict.check(k1, &e, &none));
    assert!(!dict.check(k2, &e, &none));
    dict.invalidate_cache();

    let e = flat(&vec![EventParameter::new(15, bits(75.0))]);
    assert!(!dict.check(k1, &e, &none));
    assert!(dict.check(k2, &e, &none));
    dict.invalidate_cache();

    let e = flat(&vec![EventParameter::new(15, bits(75.0)), EventParameter::new(12, bits(125.0))]);
    assert!(dict.check(k1, &e, &none));
    assert!(dict.check(k2, &e, &none));
    dict.invalidate_cache();
}

// MultiCut

#[test]
fn multicut_new_1() {
    let mcut = MultiCut::new(&[1, 2, 3], bits(100.0), bits(200.0));
    assert_eq!(vec![1, 2, 3], mcut.parameters());
    assert_eq!((bits(100.0), bits(200.0)), mcut.limits());
    assert_eq!(None, mcut.get_cached_value());
    assert!(mcut.is_fold());
}

#[test]
fn inside_1() {
    let mcut = MultiCut::new(&[1, 2, 3], bits(100.0), bits(200.0));
    assert!(mcut.inside(bits(150.0)));
}

#[test]
fn inside_2() {
    let mcut = MultiCut::new(&[1, 2, 3], bits(100.0), bits(200.0));
    assert!(!mcut.inside(bits(90.0)));
}

#[test]
fn inside_3() {
    let mcut = MultiCut::new(&[1, 2, 3], bits(100.0), bits(200.0));
    assert!(!mcut.inside(bits(201.0)));
}

#[test]
fn inside_includes_both_limits() {
    let mcut = MultiCut::new(&[1], bits(100.0), bits(200.0));
    assert!(mcut.inside(bits(100.0)));
    assert!(mcut.inside(bits(200.0)));
    assert!(!mcut.inside(bits(f64::NAN)));
}

#[test]
fn cut_eval_1() {
    let mut mcut = MultiCut::new(&[1, 2, 3], bits(100.0), bits(200.0));
    let e = flat(&vec![
        EventParameter::new(1, bits(50.0)),
        EventParameter::new(2, bits(150.0)),
        EventParameter::new(3, bits(210.0)),
    ]);
    assert!(mcut.evaluate(&e));
    assert_eq!(Some(true), mcut.get_cached_value());
}

#[test]
fn cut_eval_2() {
    let mut mcut = MultiCut::new(&[1, 2, 3], bits(100.0), bits(200.0));
    let e = flat(&vec![EventParameter::new(2, bits(150.0))]);
    assert!(mcut.evaluate(&e));
    assert_eq!(Some(true), mcut.get_cached_value());
}

#[test]
fn cut_eval_3() {
    let mut mcut = MultiCut::new(&[1, 2, 3], bits(100.0), bits(200.0));
    let e = flat(&vec![
        EventParameter::new(1, bits(20.0)),
        EventParameter::new(2, bits(50.0)),
        EventParameter::new(3, bits(250.0)),
    ]);
    assert!(!mcut.evaluate(&e));
    assert_eq!(Some(false), mcut.get_cached_value());
}

#[test]
fn cut_eval_4() {
    let mut mcut = MultiCut::new(&[1, 2, 3], bits(100.0), bits(200.0));
    let e = flat(&vec![EventParameter::new(1, bits(20.0)), EventParameter::new(3, bits(250.0))]);
    assert!(!mcut.evaluate(&e));
    assert_eq!(Some(false), mcut.get_cached_value());
}

#[test]
fn cut_eval_5() {
    let mut mcut = MultiCut::new(&[1, 2, 3], bits(100.0), bits(200.0));
    let e = flat(&vec![]);
    assert!(!mcut.evaluate(&e));
    assert_eq!(Some(false), mcut.get_cached_value());
}

#[test]
fn cut_type_1() {
    let mcut = Condition::MultiCut(MultiCut::new(&[1, 2, 3], bits(100.0), bits(200.0)));
    assert_eq!("MultiCut", mcut.condition_type());
}

#[test]
fn cut_points_1() {
    let mcut = MultiCut::new(&[1, 2, 3], bits(100.0), bits(200.0));
    assert_eq!(vec![(bits(100.0), bits(0.0)), (bits(200.0), bits(0.0))], mcut.condition_points());
}

#[test]
fn dependencies_1() {
    let mcut = Condition::MultiCut(MultiCut::new(&[1, 2, 3], bits(100.0), bits(200.0)));
    assert!(mcut.dependent_conditions().is_empty());
    assert_eq!(vec![1, 2, 3], mcut.dependent_parameters());
}

#[test]
fn cache_1() {
    let mut mcut = MultiCut::new(&[1, 2, 3], bits(100.0), bits(200.0));
    assert_eq!(None, mcut.get_cached_value());
    let mut fevent = FlatEvent::new();
    fevent.load_event(&vec![]);
    mcut.evaluate(&fevent);
    assert_eq!(Some(false), mcut.get_cached_value());
    fevent.load_event(&vec![EventParameter::new(2, bits(150.0))]);
    mcut.evaluate(&fevent);
    assert_eq!(Some(true), mcut.get_cached_value());
}

#[test]
fn invalidate_1() {
    let mut mcut = MultiCut::new(&[1, 2, 3], bits(100.0), bits(200.0));
    mcut.evaluate(&flat(&vec![]));
    assert_eq!(Some(false), mcut.get_cached_value());
    mcut.invalidate_cache();
    assert_eq!(None, mcut.get_cached_value());
}

fn set1(v: Vec<u32>) -> HashSet<u32> {
    v.into_iter().collect()
}

fn set2(v: Vec<(u32, u32)>) -> HashSet<(u32, u32)> {
    v.into_iter().collect()
}

#[test]
fn cut_fold1_1() {
    let mcut = MultiCut::new(&[1, 2, 3], bits(100.0), bits(200.0));
    let e = flat(&vec![
        EventParameter::new(1, bits(110.0)),
        EventParameter::new(2, bits(120.0)),
        EventParameter::new(3, bits(180.0)),
    ]);
    assert!(mcut.evaluate_1(&e).is_empty());
}

#[test]
fn cut_fold1_2() {
    let mcut = MultiCut::new(&[1, 2, 3], bits(100.0), bits(200.0));
    let e = flat(&vec![
        EventParameter::new(1, bits(10.0)),
        EventParameter::new(2, bits(20.0)),
        EventParameter::new(3, bits(80.0)),
    ]);
    assert_eq!(set1(vec![1, 2, 3]), set1(mcut.evaluate_1(&e)));
}

#[test]
fn cut_fold1_3() {
    let mcut = MultiCut::new(&[1, 2, 3], bits(100.0), bits(200.0));
    let e = flat(&vec![
        EventParameter::new(1, bits(10.0)),
        EventParameter::new(2, bits(120.0)),
        EventParameter::new(3, bits(80.0)),
    ]);
    assert_eq!(set1(vec![1, 3]), set1(mcut.evaluate_1(&e)));
}

#[test]
fn cut_fold2_1() {
    let mcut = MultiCut::new(&[1, 2, 3], bits(100.0), bits(200.0));
    let e = flat(&vec![
        EventParameter::new(1, bits(110.0)),
        EventParameter::new(2, bits(20.0)),
        EventParameter::new(3, bits(180.0)),
    ]);
    assert!(mcut.evaluate_2(&e).is_empty());
}

#[test]
fn cut_fold2_2() {
    let mcut = MultiCut::new(&[1, 2, 3], bits(100.0), bits(200.0));
    let e = flat(&vec![
        EventParameter::new(1, bits(110.0)),
        EventParameter::new(2, bits(20.0)),
        EventParameter::new(3, bits(80.0)),
    ]);
    assert_eq!(set2(vec![(2, 3)]), set2(mcut.evaluate_2(&e)));
}

#[test]
fn fold2_3() {
    let mcut = MultiCut::new(&[1, 2, 3], bits(100.0), bits(200.0));
    let e = flat(&vec![
        EventParameter::new(1, bits(10.0)),
        EventParameter::new(2, bits(20.0)),
        EventParameter::new(3, bits(80.0)),
    ]);
    assert_eq!(set2(vec![(1, 2), (1, 3), (2, 3)]), set2(mcut.evaluate_2(&e)));
}

#[test]
fn fold_ignores_missing_parameters() {
    let mcut = MultiCut::new(&[1, 2, 3], bits(100.0), bits(200.0));
    let e = flat(&vec![EventParameter::new(2, bits(20.0))]);
    assert_eq!(vec![2], mcut.evaluate_1(&e));
    assert!(mcut.evaluate_2(&e).is_empty());
}

#[test]
fn multicut_is_or_of_cuts_at_high() {
    let mut mcut = MultiCut::new(&[1, 2, 3], bits(100.0), bits(200.0));
    let e = flat(&vec![EventParameter::new(2, bits(200.0))]);
    assert!(mcut.evaluate(&e));
    assert_eq!(Some(true), mcut.get_cached_value());
}
