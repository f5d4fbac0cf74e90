use rustogrammer::conditions::twod::{points_as_pairs, Band, Contour, MultiContour, Point};
use rustogrammer::conditions::Condition;
use rustogrammer::parameters::{EventParameter, FlatEvent};

fn pt(x: f64, y: f64) -> Point {
    Point::new(x.to_bits(), y.to_bits())
}

fn band_points() -> Vec<Point> {
    vec![pt(2.0, 5.0), pt(5.0, 5.0), pt(10.0, 0.0)]
}

fn diamond() -> Vec<Point> {
    vec![pt(0.0, 50.0), pt(50.0, 0.0), pt(100.0, 50.0), pt(50.0, 100.0)]
}

fn hourglass() -> Vec<Point> {
    vec![pt(0.0, 0.0), pt(50.0, 50.0), pt(50.0, 0.0), pt(0.0, 50.0)]
}

// Band

#[test]
fn twod_new_1() {
    assert!(Band::new(1, 2, Vec::<Point>::new()).is_none());
}

#[test]
fn twod_new_2() {
    assert!(Band::new(1, 2, vec![pt(0.0, 0.0)]).is_none());
}

#[test]
fn twod_new_3() {
    assert!(Band::new(1, 2, vec![pt(0.0, 0.0), pt(5.0, 3.0)]).is_some());
}

#[test]
fn getpts_1() {
    let b = Band::new(1, 2, band_points()).unwrap();
    let p1 = band_points();
    let p2 = b.get_points();
    assert_eq!(p1.len(), p2.len());
    for (i, p) in p1.iter().enumerate() {
        assert_eq!(*p, p2[i]);
    }
}

#[test]
fn twod_foldable_1() {
    let b = Condition::Band(Band::new(1, 2, band_points()).unwrap());
    assert!(!b.is_fold());
}

#[test]
fn band_description() {
    let b = Condition::Band(Band::new(1, 2, band_points()).unwrap());
    assert_eq!("Band", b.condition_type());
    assert_eq!(vec![1, 2], b.dependent_parameters());
    assert!(b.dependent_conditions().is_empty());
    assert_eq!(points_as_pairs(&band_points()), b.condition_points());
}

// Contour

#[test]
fn twod_contour_new_1() {
    assert!(Contour::new(1, 2, Vec::<Point>::new()).is_none());
}

#[test]
fn twod_contour_new_2() {
    assert!(Contour::new(1, 2, vec![pt(50.0, 50.0)]).is_none());
}

#[test]
fn twod_contour_new_3() {
    assert!(Contour::new(1, 2, vec![pt(50.0, 0.0), pt(0.0, 50.0)]).is_none());
}

#[test]
fn new_4() {
    let pts = vec![pt(50.0, 0.0), pt(0.0, 50.0), pt(50.0, 100.0)];
    let c = Contour::new(1, 2, pts.clone());
    assert!(c.is_some());
    let c = c.unwrap();
    let cpts = c.get_points();
    assert_eq!(pts.len(), cpts.len());
    for (i, p) in pts.iter().enumerate() {
        assert_eq!(*p, cpts[i]);
    }
}

#[test]
fn twod_contour_foldable_1() {
    let pts = vec![pt(50.0, 0.0), pt(0.0, 50.0), pt(50.0, 100.0)];
    let c = Contour::new(1, 2, pts.clone());
    assert!(c.is_some());
    assert!(!Condition::Contour(c.unwrap()).is_fold());
}

#[test]
fn twod_foldable() {
    let c = Contour::new(1, 2, hourglass()).unwrap();
    assert!(!Condition::Contour(c).is_fold());
}

#[test]
fn contour_cache_is_set_from_outside() {
    let mut c = Contour::new(1, 2, diamond()).unwrap();
    assert_eq!(None, c.get_cached_value());
    c.set_cached_value(Some(true));
    assert_eq!(Some(true), c.get_cached_value());
    c.set_cached_value(None);
    assert_eq!(None, c.get_cached_value());
}

// MultiContour

#[test]
fn twod_multicontour_new_1() {
    let c = MultiContour::new(&[1, 2, 3], diamond());
    assert!(c.is_some());
    let c = c.unwrap();
    assert_eq!(vec![1, 2, 3], c.dependent_parameters());
    assert_eq!(None, c.get_cached_value());
}

#[test]
fn multicontour_needs_three_points() {
    assert!(MultiContour::new(&[1, 2, 3], vec![pt(0.0, 0.0), pt(1.0, 1.0)]).is_none());
}

#[test]
fn twod_type_1() {
    let c = MultiContour::new(&[1, 2, 3], diamond()).expect("making multicontour");
    assert_eq!("MultiContour", Condition::MultiContour(c).condition_type());
}

#[test]
fn twod_points_1() {
    let pts = diamond();
    let c = MultiContour::new(&[1, 2, 3], pts.clone()).expect("making multicontour");
    let condition_pts = Condition::MultiContour(c).condition_points();
    assert_eq!(pts.len(), condition_pts.len());
    for (i, p) in pts.iter().enumerate() {
        assert_eq!((p.x, p.y), condition_pts[i], "Mismatch on {}", i);
    }
}

#[test]
fn depcond_1() {
    let c = MultiContour::new(&[1, 2, 3], diamond()).expect("making multicontour");
    assert!(Condition::MultiContour(c).dependent_conditions().is_empty());
}

#[test]
fn deppars_1() {
    let c = MultiContour::new(&[1, 2, 3], diamond()).expect("making multicontour");
    assert_eq!(vec![1, 2, 3], c.dependent_parameters());
}

#[test]
fn getcache_1() {
    let c = MultiContour::new(&[1, 2, 3], diamond()).expect("making multicontour");
    assert_eq!(None, c.get_cached_value());
}

#[test]
fn twod_multicontour_foldable_1() {
    let c = MultiContour::new(&[1, 2, 3], diamond()).expect("making multicontour");
    assert!(Condition::MultiContour(c).is_fold());
}

// Folds of a multi contour.  The library is handed, for each pair of set
// parameters, whether its point lies inside the diamond (a floating point
// test made outside it); the flags below are the diamond's answers.

fn flat(values: &[(u32, f64)]) -> FlatEvent {
    let e: Vec<EventParameter> = values.iter().map(|(id, v)| EventParameter::new(*id, v.to_bits())).collect();
    let mut fe = FlatEvent::new();
    fe.load_event(&e);
    fe
}

#[test]
fn multicontour_set_pairs() {
    let c = MultiContour::new(&[1, 2, 3], diamond()).expect("making multicontour");
    let fe = flat(&[(1, 60.0), (3, 80.0)]);
    assert_eq!(vec![(1, 3, 60.0f64.to_bits(), 80.0f64.to_bits())], c.set_pairs(&fe));
    let fe = flat(&[(1, 60.0), (2, 70.0), (3, 80.0)]);
    let pairs: Vec<(u32, u32)> = c.set_pairs(&fe).iter().map(|p| (p.0, p.1)).collect();
    assert_eq!(vec![(1, 2), (1, 3), (2, 3)], pairs);
    assert!(c.set_pairs(&flat(&[(2, 1.0)])).is_empty());
}

#[test]
fn twod_fold1_1() {
    // All pairs are in the contour.
    let c = MultiContour::new(&[1, 2, 3], diamond()).expect("making multicontour");
    let fe = flat(&[(1, 60.0), (2, 70.0), (3, 80.0)]);
    assert_eq!(Vec::<u32>::new(), c.evaluate_1(&fe, &vec![true, true, true]));
}

#[test]
fn twod_fold1_2() {
    // (60, 55) is inside; (60, 700) and (55, 700) are not.
    let c = MultiContour::new(&[1, 2, 3], diamond()).expect("making multicontour");
    let fe = flat(&[(1, 60.0), (2, 55.0), (3, 700.0)]);
    assert_eq!(vec![1, 2, 3], c.evaluate_1(&fe, &vec![true, false, false]));
}

#[test]
fn twod_fold1_3() {
    // None of the points is inside.
    let c = MultiContour::new(&[1, 2, 3], diamond()).expect("making multicontour");
    let fe = flat(&[(1, 60.0), (2, 550.0), (3, 700.0)]);
    assert_eq!(vec![1, 2, 3], c.evaluate_1(&fe, &vec![false, false, false]));
}

#[test]
fn twod_fold2_1() {
    let c = MultiContour::new(&[1, 2, 3], diamond()).expect("making multicontour");
    let fe = flat(&[(1, 60.0), (2, 70.0), (3, 80.0)]);
    assert_eq!(Vec::<(u32, u32)>::new(), c.evaluate_2(&fe, &vec![true, true, true]));
}

#[test]
fn twod_fold2_2() {
    // (600, 70) and (600, 80) are outside, (70, 80) inside.
    let c = MultiContour::new(&[1, 2, 3], diamond()).expect("making multicontour");
    let fe = flat(&[(1, 600.0), (2, 70.0), (3, 80.0)]);
    assert_eq!(vec![(1, 2), (1, 3)], c.evaluate_2(&fe, &vec![false, false, true]));
}

#[test]
fn multicontour_fold1_sorts_and_dedups() {
    let c = MultiContour::new(&[7, 3, 5], diamond()).expect("making multicontour");
    let fe = flat(&[(7, 1.0), (3, 2.0), (5, 3.0)]);
    // pairs (7,3), (7,5), (3,5): the last two are outside.
    assert_eq!(vec![3, 5, 7], c.evaluate_1(&fe, &vec![true, false, false]));
    assert_eq!(vec![3, 5], c.evaluate_1(&fe, &vec![true, true, false]));
}

#[test]
fn band_and_contour_event_points() {
    let b = Band::new(1, 2, band_points()).unwrap();
    assert_eq!(Some((3.0f64.to_bits(), 4.0f64.to_bits())), b.event_point(&flat(&[(2, 4.0), (1, 3.0)])));
    assert_eq!(None, b.event_point(&flat(&[(1, 3.0)])));
    let c = Contour::new(5, 6, diamond()).unwrap();
    assert_eq!(None, c.event_point(&flat(&[(6, 3.0)])));
    assert_eq!(Some((1.0f64.to_bits(), 2.0f64.to_bits())), c.event_point(&flat(&[(5, 1.0), (6, 2.0)])));
}

// Checking a multi contour in the condition dictionary.  Whether one of its
// points lies inside the diamond is the floating point test made outside
// the library; its outcome for the event is handed to `check` by slot.

fn diamond_dict() -> (rustogrammer::conditions::ConditionDictionary, usize) {
    let mut dict = rustogrammer::conditions::ConditionDictionary::new();
    let c = MultiContour::new(&[1, 2, 3], diamond()).expect("making multicontour");
    dict.insert("mc", Condition::MultiContour(c));
    let s = dict.get("mc").unwrap();
    (dict, s)
}

#[test]
fn twod_check_1() {
    // All pairs are in the contour.
    let (mut dict, s) = diamond_dict();
    let fe = flat(&[(1, 60.0), (2, 55.0), (3, 70.0)]);
    assert!(dict.check(s, &fe, &vec![true]));
    assert_eq!(Some(true), dict.get_cached_value(s));
}

#[test]
fn twod_check_2() {
    // One pair, (60, 55), is in the contour.
    let (mut dict, s) = diamond_dict();
    let fe = flat(&[(1, 60.0), (2, 55.0), (3, 700.0)]);
    assert!(dict.check(s, &fe, &vec![true]));
    assert_eq!(Some(true), dict.get_cached_value(s));
}

#[test]
fn twod_check_3() {
    // No pair is in the contour.
    let (mut dict, s) = diamond_dict();
    let fe = flat(&[(1, 60.0), (2, 675.0), (3, 700.0)]);
    assert!(!dict.check(s, &fe, &vec![false]));
    assert_eq!(Some(false), dict.get_cached_value(s));
}

#[test]
fn get_cache_2() {
    let (mut dict, s) = diamond_dict();
    let fe = flat(&[(1, 60.0), (2, 55.0), (3, 70.0)]);
    assert!(dict.check(s, &fe, &vec![true]));
    assert_eq!(Some(true), dict.get_cached_value(s));
}

#[test]
fn get_cache_3() {
    let (mut dict, s) = diamond_dict();
    let fe = flat(&[(1, 60.0), (2, 675.0), (3, 700.0)]);
    assert!(!dict.check(s, &fe, &vec![false]));
    assert_eq!(Some(false), dict.get_cached_value(s));
}

#[test]
fn clrcache_1() {
    let (mut dict, s) = diamond_dict();
    let fe = flat(&[(1, 60.0), (2, 675.0), (3, 700.0)]);
    assert!(!dict.check(s, &fe, &vec![false]));
    dict.invalidate_cache();
    assert_eq!(None, dict.get_cached_value(s));
}
