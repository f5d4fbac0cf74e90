//! Cuts: conditions on the value of one parameter (`Cut`) or on any of a
//! set of parameters (`MultiCut`, what SpecTcl called a gamma slice).
//!
//! A `Cut` is true for an event when its parameter is present and its value
//! lies in `[low, high]`.  A `MultiCut` is true when some of its parameters
//! is present with a value in `[low, high]`: the OR of cuts on each of
//! them.  Both cache the result of
//! their last evaluation until the cache is invalidated.  A `MultiCut` can
//! also fold gamma spectra.
use vstd::prelude::*;
use crate::parameters::FlatEvent;
use crate::real_bits::{bits_le, real_le};

verus! {

/// The value `v` lies in `[low, high]`.
pub open spec fn in_closed(v: u64, low: u64, high: u64) -> bool {
    real_le(low, v) && real_le(v, high)
}

/// A cut on parameter `id` holds for the event `ev`.
pub open spec fn cut_holds(ev: FlatEvent, id: u32, low: u64, high: u64) -> bool {
    match ev.value(id) {
        Some(v) => in_closed(v, low, high),
        None => false,
    }
}

/// Parameter `p` is present in `ev` with a value inside `[low, high]`.
pub open spec fn made_by(ev: FlatEvent, p: u32, low: u64, high: u64) -> bool {
    ev.value(p) is Some && in_closed(ev.value(p)->0, low, high)
}

/// Parameter `p` is present in `ev` with a value outside `[low, high]`.
pub open spec fn present_outside(ev: FlatEvent, p: u32, low: u64, high: u64) -> bool {
    ev.value(p) is Some && !in_closed(ev.value(p)->0, low, high)
}

/// A multi cut on `params` holds for `ev`.
pub open spec fn multicut_holds(ev: FlatEvent, params: Seq<u32>, low: u64, high: u64) -> bool {
    exists|i: int| 0 <= i < params.len() && #[trigger] made_by(ev, params[i], low, high)
}

/// The parameters of `params`, in order, that are present in `ev` outside
/// the slice: what a 1-d fold lets through.
pub open spec fn fold1_params(ev: FlatEvent, params: Seq<u32>, low: u64, high: u64) -> Seq<u32>
    decreases params.len(),
{
    if params.len() == 0 {
        Seq::empty()
    } else {
        let rest = fold1_params(ev, params.drop_last(), low, high);
        if present_outside(ev, params.last(), low, high) {
            rest.push(params.last())
        } else {
            rest
        }
    }
}

/// The pair `(params[i], params[j])`, `i < j`, is a pair of parameters both
/// present outside the slice: what a 2-d fold lets through.
pub open spec fn fold2_pair(ev: FlatEvent, params: Seq<u32>, low: u64, high: u64, i: int, j: int) -> bool {
    &&& 0 <= i < j < params.len()
    &&& present_outside(ev, params[i], low, high)
    &&& present_outside(ev, params[j], low, high)
}

/// A cut on a single parameter.
#[derive(PartialEq, Debug)]
pub struct Cut {
    parameter_id: u32,
    low: u64,
    high: u64,
    cache: Option<bool>,
}

impl Cut {
    /// The parameter id.
    pub closed spec fn spec_parameter(&self) -> u32 {
        self.parameter_id
    }

    /// The low limit.
    pub closed spec fn spec_low(&self) -> u64 {
        self.low
    }

    /// The high limit.
    pub closed spec fn spec_high(&self) -> u64 {
        self.high
    }

    /// The cached result.
    pub closed spec fn spec_cache(&self) -> Option<bool> {
        self.cache
    }

    /// A cut on parameter `id` with limits `low` and `high`; nothing cached.
    pub fn new(id: u32, low: u64, high: u64) -> (r: Cut)
        ensures
            r.spec_parameter() == id,
            r.spec_low() == low,
            r.spec_high() == high,
            r.spec_cache() == None::<bool>,
    {
        Cut { parameter_id: id, low, high, cache: None }
    }

    /// Replaces the limits, which invalidates the cache.
    pub fn replace_limits(&mut self, low: u64, high: u64)
        ensures
            final(self).spec_parameter() == old(self).spec_parameter(),
            final(self).spec_low() == low,
            final(self).spec_high() == high,
            final(self).spec_cache() == None::<bool>,
    {
        self.low = low;
        self.high = high;
        self.cache = None;
    }

    /// The parameter id.
    pub fn parameter_id(&self) -> (r: u32)
        ensures
            r == self.spec_parameter(),
    {
        self.parameter_id
    }

    /// The limits `(low, high)`.
    pub fn limits(&self) -> (r: (u64, u64))
        ensures
            r == (self.spec_low(), self.spec_high()),
    {
        (self.low, self.high)
    }

    /// Evaluates the cut for `event` and caches the result.
    pub fn evaluate(&mut self, event: &FlatEvent) -> (r: bool)
        ensures
            r == cut_holds(*event, old(self).spec_parameter(), old(self).spec_low(), old(self).spec_high()),
            final(self).spec_cache() == Some(r),
            final(self).spec_parameter() == old(self).spec_parameter(),
            final(self).spec_low() == old(self).spec_low(),
            final(self).spec_high() == old(self).spec_high(),
    {
        let result = match event.get_parameter(self.parameter_id) {
            Some(p) => bits_le(self.low, p) && bits_le(p, self.high),
            None => false,
        };
        self.cache = Some(result);
        result
    }

    /// The cached result if there is one, else the result of `evaluate`.
    pub fn check(&mut self, event: &FlatEvent) -> (r: bool)
        ensures
            old(self).spec_cache() matches Some(b) ==> r == b && *final(self) == *old(self),
            old(self).spec_cache() is None ==> r == cut_holds(
                *event,
                old(self).spec_parameter(),
                old(self).spec_low(),
                old(self).spec_high(),
            ) && final(self).spec_cache() == Some(r),
            final(self).spec_parameter() == old(self).spec_parameter(),
            final(self).spec_low() == old(self).spec_low(),
            final(self).spec_high() == old(self).spec_high(),
    {
        match self.cache {
            Some(b) => b,
            None => self.evaluate(event),
        }
    }

    /// The cached result.
    pub fn get_cached_value(&self) -> (r: Option<bool>)
        ensures
            r == self.spec_cache(),
    {
        self.cache
    }

    /// Forgets the cached result.
    pub fn invalidate_cache(&mut self)
        ensures
            final(self).spec_cache() == None::<bool>,
            final(self).spec_parameter() == old(self).spec_parameter(),
            final(self).spec_low() == old(self).spec_low(),
            final(self).spec_high() == old(self).spec_high(),
    {
        self.cache = None;
    }

    /// Records `v` as the cached result.
    pub fn set_cached_value(&mut self, v: Option<bool>)
        ensures
            final(self).spec_cache() == v,
            final(self).spec_parameter() == old(self).spec_parameter(),
            final(self).spec_low() == old(self).spec_low(),
            final(self).spec_high() == old(self).spec_high(),
    {
        self.cache = v;
    }

    /// A cut cannot fold a spectrum.
    pub fn is_fold(&self) -> (r: bool)
        ensures
            !r,
    {
        false
    }

    /// The points that describe the cut: `(low, 0)` and `(high, 0)`.
    pub fn condition_points(&self) -> (r: Vec<(u64, u64)>)
        ensures
            r@ == seq![(self.spec_low(), 0u64), (self.spec_high(), 0u64)],
    {
        let mut v: Vec<(u64, u64)> = Vec::new();
        v.push((self.low, 0));
        v.push((self.high, 0));
        v
    }

    /// The parameters the cut depends on.
    pub fn dependent_parameters(&self) -> (r: Vec<u32>)
        ensures
            r@ == seq![self.spec_parameter()],
    {
        let mut v: Vec<u32> = Vec::new();
        v.push(self.parameter_id);
        v
    }

    /// A copy of the cut, cache included.
    pub fn duplicate(&self) -> (r: Cut)
        ensures
            r == *self,
    {
        Cut { parameter_id: self.parameter_id, low: self.low, high: self.high, cache: self.cache }
    }
}

/// A cut set on several parameters at once; it also folds.
#[derive(PartialEq, Debug)]
pub struct MultiCut {
    parameters: Vec<u32>,
    low: u64,
    high: u64,
    cache: Option<bool>,
}

impl MultiCut {
    /// The parameter ids.
    pub closed spec fn spec_parameters(&self) -> Seq<u32> {
        self.parameters@
    }

    /// The low limit.
    pub closed spec fn spec_low(&self) -> u64 {
        self.low
    }

    /// The high limit.
    pub closed spec fn spec_high(&self) -> u64 {
        self.high
    }

    /// The cached result.
    pub closed spec fn spec_cache(&self) -> Option<bool> {
        self.cache
    }

    /// A multi cut on `params` with limits `low` and `high`.
    pub fn new(params: &[u32], low: u64, high: u64) -> (r: MultiCut)
        ensures
            r.spec_parameters() == params@,
            r.spec_low() == low,
            r.spec_high() == high,
            r.spec_cache() == None::<bool>,
    {
        let mut v: Vec<u32> = Vec::new();
        let mut i: usize = 0;
        while i < params.len()
            invariant
                i <= params@.len(),
                v@ == params@.take(i as int),
            decreases params@.len() - i,
        {
            v.push(params[i]);
            i = i + 1;
            proof {
                assert(v@ =~= params@.take(i as int));
            }
        }
        proof {
            assert(params@.take(params@.len() as int) =~= params@);
        }
        MultiCut { parameters: v, low, high, cache: None }
    }

    /// Is `value` inside `[low, high]`?
    pub fn inside(&self, value: u64) -> (r: bool)
        ensures
            r == in_closed(value, self.spec_low(), self.spec_high()),
    {
        bits_le(self.low, value) && bits_le(value, self.high)
    }

    /// The parameter ids.
    pub fn parameters(&self) -> (r: Vec<u32>)
        ensures
            r@ == self.spec_parameters(),
    {
        self.parameters.clone()
    }

    /// The limits `(low, high)`.
    pub fn limits(&self) -> (r: (u64, u64))
        ensures
            r == (self.spec_low(), self.spec_high()),
    {
        (self.low, self.high)
    }

    /// Evaluates the condition for `event` (true when some parameter is
    /// inside the slice) and caches the result.
    pub fn evaluate(&mut self, event: &FlatEvent) -> (r: bool)
        ensures
            r == multicut_holds(*event, old(self).spec_parameters(), old(self).spec_low(), old(self).spec_high()),
            final(self).spec_cache() == Some(r),
            final(self).spec_parameters() == old(self).spec_parameters(),
            final(self).spec_low() == old(self).spec_low(),
            final(self).spec_high() == old(self).spec_high(),
    {
        let mut i: usize = 0;
        while i < self.parameters.len()
            invariant
                i <= self.parameters@.len(),
                self.parameters@ == old(self).parameters@,
                self.low == old(self).low,
                self.high == old(self).high,
                forall|j: int| 0 <= j < i ==> !#[trigger] made_by(*event, self.parameters@[j], self.low, self.high),
            decreases self.parameters@.len() - i,
        {
            let p = self.parameters[i];
            if let Some(value) = event.get_parameter(p) {
                if self.inside(value) {
                    self.cache = Some(true);
                    proof {
                        assert(made_by(*event, self.parameters@[i as int], self.low, self.high));
                    }
                    return true;
                }
            }
            i = i + 1;
        }
        self.cache = Some(false);
        false
    }

    /// The cached result if there is one, else the result of `evaluate`.
    pub fn check(&mut self, event: &FlatEvent) -> (r: bool)
        ensures
            old(self).spec_cache() matches Some(b) ==> r == b && *final(self) == *old(self),
            old(self).spec_cache() is None ==> r == multicut_holds(
                *event,
                old(self).spec_parameters(),
                old(self).spec_low(),
                old(self).spec_high(),
            ) && final(self).spec_cache() == Some(r),
            final(self).spec_parameters() == old(self).spec_parameters(),
            final(self).spec_low() == old(self).spec_low(),
            final(self).spec_high() == old(self).spec_high(),
    {
        match self.cache {
            Some(b) => b,
            None => self.evaluate(event),
        }
    }

    /// The cached result.
    pub fn get_cached_value(&self) -> (r: Option<bool>)
        ensures
            r == self.spec_cache(),
    {
        self.cache
    }

    /// Forgets the cached result.
    pub fn invalidate_cache(&mut self)
        ensures
            final(self).spec_cache() == None::<bool>,
            final(self).spec_parameters() == old(self).spec_parameters(),
            final(self).spec_low() == old(self).spec_low(),
            final(self).spec_high() == old(self).spec_high(),
    {
        self.cache = None;
    }

    /// Records `v` as the cached result.
    pub fn set_cached_value(&mut self, v: Option<bool>)
        ensures
            final(self).spec_cache() == v,
            final(self).spec_parameters() == old(self).spec_parameters(),
            final(self).spec_low() == old(self).spec_low(),
            final(self).spec_high() == old(self).spec_high(),
    {
        self.cache = v;
    }

    /// A multi cut can fold a spectrum.
    pub fn is_fold(&self) -> (r: bool)
        ensures
            r,
    {
        true
    }

    /// The points that describe the slice: `(low, 0)` and `(high, 0)`.
    pub fn condition_points(&self) -> (r: Vec<(u64, u64)>)
        ensures
            r@ == seq![(self.spec_low(), 0u64), (self.spec_high(), 0u64)],
    {
        let mut v: Vec<(u64, u64)> = Vec::new();
        v.push((self.low, 0));
        v.push((self.high, 0));
        v
    }

    /// The parameters the condition depends on.
    pub fn dependent_parameters(&self) -> (r: Vec<u32>)
        ensures
            r@ == self.spec_parameters(),
    {
        self.parameters.clone()
    }

    /// The 1-d fold: the parameters, in order, that are present in the event
    /// outside the slice.
    pub fn evaluate_1(&self, event: &FlatEvent) -> (r: Vec<u32>)
        ensures
            r@ == fold1_params(*event, self.spec_parameters(), self.spec_low(), self.spec_high()),
    {
        let mut result: Vec<u32> = Vec::new();
        let mut i: usize = 0;
        while i < self.parameters.len()
            invariant
                i <= self.parameters@.len(),
                result@ == fold1_params(*event, self.parameters@.take(i as int), self.low, self.high),
            decreases self.parameters@.len() - i,
        {
            let p = self.parameters[i];
            proof {
                assert(self.parameters@.take(i as int + 1).drop_last() =~= self.parameters@.take(i as int));
            }
            if let Some(value) = event.get_parameter(p) {
                if !self.inside(value) {
                    result.push(p);
                }
            }
            i = i + 1;
        }
        proof {
            assert(self.parameters@.take(self.parameters@.len() as int) =~= self.parameters@);
        }
        result
    }

    /// The 2-d fold: the pairs of parameters (earlier one first) that are
    /// both present in the event outside the slice.
    pub fn evaluate_2(&self, event: &FlatEvent) -> (r: Vec<(u32, u32)>)
        requires
            self.spec_parameters().len() > 0,
        ensures
            forall|a: u32, b: u32|
                r@.contains((a, b)) <==> exists|i: int, j: int|
                    fold2_pair(*event, self.spec_parameters(), self.spec_low(), self.spec_high(), i, j)
                        && self.spec_parameters()[i] == a && self.spec_parameters()[j] == b,
    {
        let ghost ps = self.parameters@;
        let n = self.parameters.len();
        let mut result: Vec<(u32, u32)> = Vec::new();
        let mut i: usize = 0;
        while i < n - 1
            invariant
                n == ps.len(),
                ps == self.parameters@,
                n > 0,
                i <= n - 1,
                forall|a: u32, b: u32|
                    result@.contains((a, b)) <==> exists|x: int, y: int|
                        fold2_pair(*event, ps, self.low, self.high, x, y) && x < i && ps[x] == a && ps[y] == b,
            decreases n - 1 - i,
        {
            let p1 = self.parameters[i];
            let mut j: usize = i + 1;
            while j < n
                invariant
                    n == ps.len(),
                    ps == self.parameters@,
                    i < n - 1,
                    i + 1 <= j <= n,
                    p1 == ps[i as int],
                    forall|a: u32, b: u32|
                        result@.contains((a, b)) <==> exists|x: int, y: int|
                            fold2_pair(*event, ps, self.low, self.high, x, y) && (x < i || (x == i && y < j))
                                && ps[x] == a && ps[y] == b,
                decreases n - j,
            {
                let p2 = self.parameters[j];
                let ghost old_result = result@;
                let mut pushed = false;
                if let Some(val1) = event.get_parameter(p1) {
                    if let Some(val2) = event.get_parameter(p2) {
                        if !self.inside(val1) && !self.inside(val2) {
                            result.push((p1, p2));
                            pushed = true;
                        }
                    }
                }
                proof {
                    assert forall|a: u32, b: u32|
                        (exists|x: int, y: int|
                            fold2_pair(*event, ps, self.low, self.high, x, y) && (x < i || (x == i && y < j + 1))
                                && ps[x] == a && ps[y] == b) implies result@.contains((a, b)) by {
                        if exists|x: int, y: int|
                            fold2_pair(*event, ps, self.low, self.high, x, y) && (x < i || (x == i && y < j + 1))
                                && ps[x] == a && ps[y] == b {
                            let (x, y) = choose|x: int, y: int|
                                fold2_pair(*event, ps, self.low, self.high, x, y) && (x < i || (x == i && y < j
                                    + 1)) && ps[x] == a && ps[y] == b;
                            if x == i && y == j {
                                assert(pushed);
                                assert(result@[result@.len() - 1] == (a, b));
                            } else {
                                assert(old_result.contains((a, b)));
                                let k = choose|k: int| 0 <= k < old_result.len() && old_result[k] == (a, b);
                                assert(result@[k] == (a, b));
                            }
                        }
                    }
                    assert forall|a: u32, b: u32|
                        result@.contains((a, b)) implies exists|x: int, y: int|
                            fold2_pair(*event, ps, self.low, self.high, x, y) && (x < i || (x == i && y < j + 1))
                                && ps[x] == a && ps[y] == b by {
                        {
                            let k = choose|k: int| 0 <= k < result@.len() && result@[k] == (a, b);
                            if pushed && k == result@.len() - 1 {
                                assert(fold2_pair(*event, ps, self.low, self.high, i as int, j as int));
                            } else {
                                assert(old_result[k] == (a, b));
                                assert(old_result.contains((a, b)));
                            }
                        }
                    }
                }
                j = j + 1;
            }
            i = i + 1;
        }
        proof {
            assert forall|a: u32, b: u32|
                result@.contains((a, b)) <==> exists|x: int, y: int|
                    fold2_pair(*event, ps, self.low, self.high, x, y) && ps[x] == a && ps[y] == b by {
                if exists|x: int, y: int| fold2_pair(*event, ps, self.low, self.high, x, y) && ps[x] == a && ps[y] == b {
                    let (x, y) = choose|x: int, y: int|
                        fold2_pair(*event, ps, self.low, self.high, x, y) && ps[x] == a && ps[y] == b;
                    assert(x < i);
                    assert(result@.contains((a, b)));
                }
                if result@.contains((a, b)) {
                    let (x, y) = choose|x: int, y: int|
                        fold2_pair(*event, ps, self.low, self.high, x, y) && x < i && ps[x] == a && ps[y] == b;
                    assert(fold2_pair(*event, ps, self.low, self.high, x, y) && ps[x] == a && ps[y] == b);
                }
            }
            assert forall|a: u32, b: u32|
                result@.contains((a, b)) <==> exists|x: int, y: int|
                    fold2_pair(*event, self.spec_parameters(), self.spec_low(), self.spec_high(), x, y)
                        && self.spec_parameters()[x] == a && self.spec_parameters()[y] == b by {
                if result@.contains((a, b)) {
                    let (x, y) = choose|x: int, y: int|
                        fold2_pair(*event, ps, self.low, self.high, x, y) && ps[x] == a && ps[y] == b;
                    assert(fold2_pair(*event, self.spec_parameters(), self.spec_low(), self.spec_high(), x, y));
                }
            }
        }
        result
    }

    /// A copy of the condition, cache included.
    pub fn duplicate(&self) -> (r: MultiCut)
        ensures
            r.spec_parameters() == self.spec_parameters(),
            r.spec_low() == self.spec_low(),
            r.spec_high() == self.spec_high(),
            r.spec_cache() == self.spec_cache(),
    {
        MultiCut { parameters: self.parameters.clone(), low: self.low, high: self.high, cache: self.cache }
    }
}

} // verus!
