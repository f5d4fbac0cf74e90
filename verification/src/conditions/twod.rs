//! Two-dimensional conditions: bands (a polyline an event must lie below)
//! and contours (closed figures an event must lie inside), on a pair of
//! parameters, and multi contours (SpecTcl's gamma contours) on any pair
//! of a set of parameters.
//!
//! This module holds their definitions (parameters, and points as bit
//! patterns of binary64 coordinates) and picks the points of an event that
//! each condition tests: the event's point on a band's or contour's
//! parameters, and every pair of set parameters of a multi contour, from
//! which its folds are made.  Whether a point lies below a band or inside a
//! contour is a floating point computation done outside the library; the
//! condition dictionary is told its outcome when it evaluates conditions.
use vstd::prelude::*;
use crate::parameters::FlatEvent;

verus! {

/// A point of parameter space: bit patterns of its coordinates.
#[derive(Clone, Copy, Debug, PartialEq, Eq)]
pub struct Point {
    pub x: u64,
    pub y: u64,
}

impl Point {
    /// The point `(x, y)`.
    pub fn new(x: u64, y: u64) -> (r: Point)
        ensures
            r == (Point { x, y }),
    {
        Point { x, y }
    }
}

/// The coordinate pairs of a sequence of points.
pub open spec fn point_pairs(pts: Seq<Point>) -> Seq<(u64, u64)> {
    pts.map_values(|p: Point| (p.x, p.y))
}

fn copy_points(pts: &Vec<Point>) -> (r: Vec<Point>)
    ensures
        r@ == pts@,
{
    let mut v: Vec<Point> = Vec::new();
    let mut i: usize = 0;
    while i < pts.len()
        invariant
            i <= pts@.len(),
            v@ == pts@.take(i as int),
        decreases pts@.len() - i,
    {
        v.push(pts[i]);
        i = i + 1;
        proof {
            assert(v@ =~= pts@.take(i as int));
        }
    }
    proof {
        assert(pts@.take(pts@.len() as int) =~= pts@);
    }
    v
}

/// The coordinate pairs of `pts`, in order.
pub fn points_as_pairs(pts: &Vec<Point>) -> (r: Vec<(u64, u64)>)
    ensures
        r@ == point_pairs(pts@),
{
    let mut v: Vec<(u64, u64)> = Vec::new();
    let mut i: usize = 0;
    while i < pts.len()
        invariant
            i <= pts@.len(),
            v@ == point_pairs(pts@.take(i as int)),
        decreases pts@.len() - i,
    {
        v.push((pts[i].x, pts[i].y));
        i = i + 1;
        proof {
            assert(v@ =~= point_pairs(pts@.take(i as int)));
        }
    }
    proof {
        assert(pts@.take(pts@.len() as int) =~= pts@);
    }
    v
}

/// The point `(x, y)` of an event on parameters `(px, py)`: `None` unless
/// the event gives both a value.
pub open spec fn event_point(ev: FlatEvent, px: u32, py: u32) -> Option<(u64, u64)> {
    match (ev.value(px), ev.value(py)) {
        (Some(x), Some(y)) => Some((x, y)),
        _ => None,
    }
}

fn point_of(event: &FlatEvent, px: u32, py: u32) -> (r: Option<(u64, u64)>)
    ensures
        r == event_point(*event, px, py),
{
    match (event.get_parameter(px), event.get_parameter(py)) {
        (Some(x), Some(y)) => Some((x, y)),
        _ => None,
    }
}

/// A band: true for events that define both parameters and lie below the
/// polyline through its points.  At least two points.
#[derive(Debug, PartialEq)]
pub struct Band {
    parameters: (u32, u32),
    points: Vec<Point>,
    cache: Option<bool>,
}

impl Band {
    /// The cached result.
    pub fn get_cached_value(&self) -> (r: Option<bool>)
        ensures
            r == self.spec_cache(),
    {
        self.cache
    }

    /// Records `v` as the cached result (the outcome of the test made
    /// outside the library, or `None` to invalidate).
    pub fn set_cached_value(&mut self, v: Option<bool>)
        ensures
            final(self).spec_cache() == v,
            final(self).spec_parameters() == old(self).spec_parameters(),
            final(self).spec_points() == old(self).spec_points(),
    {
        self.cache = v;
    }

    /// The x and y parameter ids.
    pub closed spec fn spec_parameters(&self) -> (u32, u32) {
        self.parameters
    }

    /// The points.
    pub closed spec fn spec_points(&self) -> Seq<Point> {
        self.points@
    }

    /// The cached result.
    pub closed spec fn spec_cache(&self) -> Option<bool> {
        self.cache
    }

    /// A band on parameters `p1` (x) and `p2` (y); `None` with fewer than
    /// two points.
    pub fn new(p1: u32, p2: u32, pts: Vec<Point>) -> (r: Option<Band>)
        ensures
            r is Some <==> pts@.len() >= 2,
            r matches Some(b) ==> b.spec_parameters() == (p1, p2) && b.spec_points() == pts@
                && b.spec_cache() == None::<bool>,
    {
        if pts.len() >= 2 {
            Some(Band { parameters: (p1, p2), points: pts, cache: None })
        } else {
            None
        }
    }

    /// The points.
    pub fn get_points(&self) -> (r: Vec<Point>)
        ensures
            r@ == self.spec_points(),
    {
        copy_points(&self.points)
    }

    /// The x and y parameter ids.
    pub fn dependent_parameters(&self) -> (r: Vec<u32>)
        ensures
            r@ == seq![self.spec_parameters().0, self.spec_parameters().1],
    {
        let mut v: Vec<u32> = Vec::new();
        v.push(self.parameters.0);
        v.push(self.parameters.1);
        v
    }

    /// The point of `event` on the band's parameters; `None` (the band does
    /// not hold) when the event lacks either value.  Whether the point lies
    /// below the band is a floating point test made by the caller.
    pub fn event_point(&self, event: &FlatEvent) -> (r: Option<(u64, u64)>)
        ensures
            r == event_point(*event, self.spec_parameters().0, self.spec_parameters().1),
    {
        point_of(event, self.parameters.0, self.parameters.1)
    }
}

/// A contour: true for events that define both parameters and lie inside
/// the closed figure through its points (odd crossing rule).  At least three
/// points.
#[derive(Debug, PartialEq)]
pub struct Contour {
    p1: u32,
    p2: u32,
    pts: Vec<Point>,
    cache: Option<bool>,
}

impl Contour {
    /// The cached result.
    pub fn get_cached_value(&self) -> (r: Option<bool>)
        ensures
            r == self.spec_cache(),
    {
        self.cache
    }

    /// Records `v` as the cached result (the outcome of the test made
    /// outside the library, or `None` to invalidate).
    pub fn set_cached_value(&mut self, v: Option<bool>)
        ensures
            final(self).spec_cache() == v,
            final(self).spec_parameters() == old(self).spec_parameters(),
            final(self).spec_points() == old(self).spec_points(),
    {
        self.cache = v;
    }

    /// The x and y parameter ids.
    pub closed spec fn spec_parameters(&self) -> (u32, u32) {
        (self.p1, self.p2)
    }

    /// The points.
    pub closed spec fn spec_points(&self) -> Seq<Point> {
        self.pts@
    }

    /// The cached result.
    pub closed spec fn spec_cache(&self) -> Option<bool> {
        self.cache
    }

    /// A contour on parameters `p1` (x) and `p2` (y); `None` with fewer
    /// than three points.
    pub fn new(p1: u32, p2: u32, pts: Vec<Point>) -> (r: Option<Contour>)
        ensures
            r is Some <==> pts@.len() >= 3,
            r matches Some(c) ==> c.spec_parameters() == (p1, p2) && c.spec_points() == pts@
                && c.spec_cache() == None::<bool>,
    {
        if pts.len() < 3 {
            None
        } else {
            Some(Contour { p1, p2, pts, cache: None })
        }
    }

    /// The points.
    pub fn get_points(&self) -> (r: Vec<Point>)
        ensures
            r@ == self.spec_points(),
    {
        copy_points(&self.pts)
    }

    /// The x and y parameter ids.
    pub fn dependent_parameters(&self) -> (r: Vec<u32>)
        ensures
            r@ == seq![self.spec_parameters().0, self.spec_parameters().1],
    {
        let mut v: Vec<u32> = Vec::new();
        v.push(self.p1);
        v.push(self.p2);
        v
    }

    /// The point of `event` on the contour's parameters; `None` (the
    /// contour does not hold) when the event lacks either value.  Whether the
    /// point lies inside is a floating point test made by the caller.
    pub fn event_point(&self, event: &FlatEvent) -> (r: Option<(u64, u64)>)
        ensures
            r == event_point(*event, self.spec_parameters().0, self.spec_parameters().1),
    {
        point_of(event, self.p1, self.p2)
    }
}

/// The pairs `(ps[i], ps[k])`, for `i < k < j`, of parameters that both
/// have a value in `ev`, with those values, in the order of `k`.
pub open spec fn pair_row(ev: FlatEvent, ps: Seq<u32>, i: int, j: int) -> Seq<(u32, u32, u64, u64)>
    decreases j - i,
{
    if j <= i + 1 {
        Seq::empty()
    } else {
        let before = pair_row(ev, ps, i, j - 1);
        if ev.value(ps[i]) is Some && ev.value(ps[j - 1]) is Some {
            before.push((ps[i], ps[j - 1], ev.value(ps[i])->0, ev.value(ps[j - 1])->0))
        } else {
            before
        }
    }
}

/// The rows of pairs (see `pair_row`) of the first `n` parameters of `ps`,
/// each paired with every later parameter.
pub open spec fn pairs_upto(ev: FlatEvent, ps: Seq<u32>, n: int) -> Seq<(u32, u32, u64, u64)>
    decreases n,
{
    if n <= 0 {
        Seq::empty()
    } else {
        pairs_upto(ev, ps, n - 1) + pair_row(ev, ps, n - 1, ps.len() as int)
    }
}

/// Every pair of parameters of `ps` (earlier one first, in the order of
/// the parameters) that both have a value in `ev`, with those values.
pub open spec fn set_pairs(ev: FlatEvent, ps: Seq<u32>) -> Seq<(u32, u32, u64, u64)> {
    pairs_upto(ev, ps, ps.len() as int)
}

/// The parameter pairs of the first `n` of `pairs` whose test result in
/// `inside` is false, in order.
pub open spec fn outside_upto(pairs: Seq<(u32, u32, u64, u64)>, inside: Seq<bool>, n: int) -> Seq<(u32, u32)>
    decreases n,
{
    if n <= 0 {
        Seq::empty()
    } else {
        let before = outside_upto(pairs, inside, n - 1);
        if !inside[n - 1] {
            before.push((pairs[n - 1].0, pairs[n - 1].1))
        } else {
            before
        }
    }
}

/// Strictly increasing: sorted, with no id twice.
pub open spec fn strictly_increasing(v: Seq<u32>) -> bool {
    forall|i: int, j: int| 0 <= i < j < v.len() ==> v[i] < v[j]
}

/// `id` is one of the parameters of the pairs.
pub open spec fn in_some_pair(pairs: Seq<(u32, u32)>, id: u32) -> bool {
    exists|k: int| 0 <= k < pairs.len() && (pairs[k].0 == id || pairs[k].1 == id)
}

/// Adds `x` to the strictly increasing `v`, where it belongs, unless it is
/// there already.
fn insert_sorted(v: &mut Vec<u32>, x: u32)
    requires
        strictly_increasing(old(v)@),
    ensures
        strictly_increasing(final(v)@),
        forall|y: u32| final(v)@.contains(y) <==> (old(v)@.contains(y) || y == x),
{
    let mut k: usize = 0;
    while k < v.len() && v[k] < x
        invariant
            k <= v@.len(),
            v@ == old(v)@,
            strictly_increasing(v@),
            forall|i: int| 0 <= i < k ==> v@[i] < x,
        decreases v@.len() - k,
    {
        k = k + 1;
    }
    if k < v.len() && v[k] == x {
        return;
    }
    let ghost before = v@;
    v.insert(k, x);
    proof {
        assert forall|i: int, j: int| 0 <= i < j < v@.len() implies v@[i] < v@[j] by {
            if j < k {
            } else if i < k && j == k {
            } else if i < k {
                assert(before[i] < before[j - 1]);
            } else if i == k {
                assert(x <= before[j - 1]);
                if x == before[j - 1] {
                    if j - 1 > k {
                        assert(before[k as int] < before[j - 1]);
                    }
                }
            } else {
                assert(before[i - 1] < before[j - 1]);
            }
        }
        assert forall|y: u32| v@.contains(y) <==> (before.contains(y) || y == x) by {
            if v@.contains(y) {
                let i = choose|i: int| 0 <= i < v@.len() && v@[i] == y;
                if i < k {
                    assert(before[i] == y);
                } else if i > k {
                    assert(before[i - 1] == y);
                }
            }
            if before.contains(y) {
                let i = choose|i: int| 0 <= i < before.len() && before[i] == y;
                if i < k {
                    assert(v@[i] == y);
                } else {
                    assert(v@[i + 1] == y);
                }
            }
            if y == x {
                assert(v@[k as int] == y);
            }
        }
    }
}

/// A contour set on every pair of a set of parameters (SpecTcl's gamma
/// contour); it can also fold spectra.
#[derive(Debug, PartialEq)]
pub struct MultiContour {
    contour: Contour,
    parameters: Vec<u32>,
    cache: Option<bool>,
}

impl MultiContour {
    /// The cached result.
    pub fn get_cached_value(&self) -> (r: Option<bool>)
        ensures
            r == self.spec_cache(),
    {
        self.cache
    }

    /// Records `v` as the cached result (the outcome of the test made
    /// outside the library, or `None` to invalidate).
    pub fn set_cached_value(&mut self, v: Option<bool>)
        ensures
            final(self).spec_cache() == v,
            final(self).spec_parameters() == old(self).spec_parameters(),
            final(self).spec_points() == old(self).spec_points(),
    {
        self.cache = v;
    }

    /// The parameter ids.
    pub closed spec fn spec_parameters(&self) -> Seq<u32> {
        self.parameters@
    }

    /// The points of the contour.
    pub closed spec fn spec_points(&self) -> Seq<Point> {
        self.contour.spec_points()
    }

    /// The cached result.
    pub closed spec fn spec_cache(&self) -> Option<bool> {
        self.cache
    }

    /// A multi contour on `parameters`; `None` with fewer than three points.
    pub fn new(parameters: &[u32], pts: Vec<Point>) -> (r: Option<MultiContour>)
        ensures
            r is Some <==> pts@.len() >= 3,
            r matches Some(c) ==> c.spec_parameters() == parameters@ && c.spec_points() == pts@
                && c.spec_cache() == None::<bool>,
    {
        match Contour::new(0, 0, pts) {
            Some(c) => {
                let mut v: Vec<u32> = Vec::new();
                let mut i: usize = 0;
                while i < parameters.len()
                    invariant
                        i <= parameters@.len(),
                        v@ == parameters@.take(i as int),
                    decreases parameters@.len() - i,
                {
                    v.push(parameters[i]);
                    i = i + 1;
                    proof {
                        assert(v@ =~= parameters@.take(i as int));
                    }
                }
                proof {
                    assert(parameters@.take(parameters@.len() as int) =~= parameters@);
                }
                Some(MultiContour { contour: c, parameters: v, cache: None })
            },
            None => None,
        }
    }

    /// The points of the contour.
    pub fn get_points(&self) -> (r: Vec<Point>)
        ensures
            r@ == self.spec_points(),
    {
        self.contour.get_points()
    }

    /// The parameter ids.
    pub fn dependent_parameters(&self) -> (r: Vec<u32>)
        ensures
            r@ == self.spec_parameters(),
    {
        self.parameters.clone()
    }

    /// The pairs of the condition's parameters (earlier one first) that
    /// both have a value in `event`, with those values.  The condition holds
    /// for the event when one of these points, in either orientation, lies
    /// inside the contour; its folds take the points that do not.
    pub fn set_pairs(&self, event: &FlatEvent) -> (r: Vec<(u32, u32, u64, u64)>)
        ensures
            r@ == set_pairs(*event, self.spec_parameters()),
    {
        let ghost ps = self.parameters@;
        let n = self.parameters.len();
        let mut result: Vec<(u32, u32, u64, u64)> = Vec::new();
        let mut i: usize = 0;
        while i < n
            invariant
                n == ps.len(),
                ps == self.parameters@,
                i <= n,
                result@ == pairs_upto(*event, ps, i as int),
            decreases n - i,
        {
            let p1 = self.parameters[i];
            let v1 = event.get_parameter(p1);
            let mut j: usize = i + 1;
            proof {
                assert(result@ =~= pairs_upto(*event, ps, i as int) + pair_row(*event, ps, i as int, j as int));
            }
            while j < n
                invariant
                    n == ps.len(),
                    ps == self.parameters@,
                    i < n,
                    i + 1 <= j <= n,
                    p1 == ps[i as int],
                    v1 == event.value(p1),
                    result@ == pairs_upto(*event, ps, i as int) + pair_row(*event, ps, i as int, j as int),
                decreases n - j,
            {
                let p2 = self.parameters[j];
                let v2 = event.get_parameter(p2);
                let ghost before = result@;
                match (v1, v2) {
                    (Some(a), Some(b)) => {
                        result.push((p1, p2, a, b));
                    },
                    _ => {},
                }
                proof {
                    assert(result@ =~= pairs_upto(*event, ps, i as int) + pair_row(
                        *event,
                        ps,
                        i as int,
                        j as int + 1,
                    ));
                }
                j = j + 1;
            }
            i = i + 1;
        }
        result
    }

    /// The 2-d fold: of the pairs `set_pairs` gives for `event`, those whose
    /// point is not inside the contour.  `inside[k]` is whether the point of
    /// the `k`th pair (x from the earlier parameter) lies inside the
    /// contour, a floating point test made by the caller.
    pub fn evaluate_2(&self, event: &FlatEvent, inside: &Vec<bool>) -> (r: Vec<(u32, u32)>)
        requires
            inside@.len() == set_pairs(*event, self.spec_parameters()).len(),
        ensures
            r@ == outside_upto(set_pairs(*event, self.spec_parameters()), inside@, inside@.len() as int),
    {
        let pairs = self.set_pairs(event);
        let mut result: Vec<(u32, u32)> = Vec::new();
        let mut k: usize = 0;
        while k < pairs.len()
            invariant
                k <= pairs@.len(),
                pairs@.len() == inside@.len(),
                pairs@ == set_pairs(*event, self.spec_parameters()),
                result@ == outside_upto(pairs@, inside@, k as int),
            decreases pairs@.len() - k,
        {
            if !inside[k] {
                result.push((pairs[k].0, pairs[k].1));
            }
            k = k + 1;
        }
        result
    }

    /// The 1-d fold: the parameters of the pairs of the 2-d fold (see
    /// `evaluate_2`), each once, in increasing order.
    pub fn evaluate_1(&self, event: &FlatEvent, inside: &Vec<bool>) -> (r: Vec<u32>)
        requires
            inside@.len() == set_pairs(*event, self.spec_parameters()).len(),
        ensures
            strictly_increasing(r@),
            forall|id: u32|
                r@.contains(id) <==> in_some_pair(
                    outside_upto(set_pairs(*event, self.spec_parameters()), inside@, inside@.len() as int),
                    id,
                ),
    {
        let pairs = self.evaluate_2(event, inside);
        let mut result: Vec<u32> = Vec::new();
        let mut k: usize = 0;
        while k < pairs.len()
            invariant
                k <= pairs@.len(),
                strictly_increasing(result@),
                forall|id: u32| result@.contains(id) <==> in_some_pair(pairs@.take(k as int), id),
            decreases pairs@.len() - k,
        {
            let ghost before = result@;
            insert_sorted(&mut result, pairs[k].0);
            insert_sorted(&mut result, pairs[k].1);
            proof {
                let t = pairs@.take(k as int + 1);
                assert forall|id: u32| result@.contains(id) <==> in_some_pair(t, id) by {
                    if in_some_pair(t, id) {
                        let m = choose|m: int| 0 <= m < t.len() && (t[m].0 == id || t[m].1 == id);
                        if m < k {
                            assert(pairs@.take(k as int)[m] == t[m]);
                            assert(in_some_pair(pairs@.take(k as int), id));
                        }
                    }
                    if before.contains(id) {
                        let m = choose|m: int|
                            0 <= m < pairs@.take(k as int).len() && (pairs@.take(k as int)[m].0 == id
                                || pairs@.take(k as int)[m].1 == id);
                        assert(t[m] == pairs@.take(k as int)[m]);
                    }
                    if id == pairs@[k as int].0 || id == pairs@[k as int].1 {
                        assert(t[k as int] == pairs@[k as int]);
                    }
                }
            }
            k = k + 1;
        }
        proof {
            assert(pairs@.take(pairs@.len() as int) =~= pairs@);
        }
        result
    }
}

} // verus!
