//! Conditions (SpecTcl's gates): boolean functions of the parameters of an
//! event, and the dictionary that names them.
//!
//! The dictionary keeps each condition in a slot.  A slot is what
//! dependent conditions refer to: replacing the condition of a name keeps
//! its slot, so dependents see the replacement; deleting a name empties its
//! slot for good, and a dependent whose slot is empty treats it as a deleted
//! condition, which counts as false (a `Not` of it is false too).
//!
//! Conditions cache the result of their last evaluation (except `True` and
//! `False`); a cached result is returned by `check` until the caches are
//! invalidated, which is done before each event.
//!
//! Whether a point lies below a band or inside a contour is a floating
//! point computation done outside the library: evaluation is told, for
//! each slot, the outcome of its two-dimensional test.
use vstd::prelude::*;
use crate::parameters::FlatEvent;
use crate::conditions::cut::{Cut, MultiCut, cut_holds, multicut_holds};
use crate::conditions::twod::{Band, Contour, MultiContour, point_pairs, points_as_pairs};

pub mod cut;
pub mod twod;

verus! {

/// The slot of a condition in a dictionary: how conditions refer to the
/// conditions they depend on.
pub type ConditionId = usize;

/// The condition that is always true.  It does not cache.
#[derive(Debug, PartialEq)]
pub struct True {}

/// The condition that is always false.  It does not cache.
#[derive(Debug, PartialEq)]
pub struct False {}

/// The negation of one dependent condition.
#[derive(Debug, PartialEq)]
pub struct Not {
    dependent: ConditionId,
    cache: Option<bool>,
}

impl Not {
    /// The dependent condition.
    pub closed spec fn spec_dependent(&self) -> ConditionId {
        self.dependent
    }

    /// The cached result.
    pub closed spec fn spec_cache(&self) -> Option<bool> {
        self.cache
    }

    /// The negation of the condition in slot `cond`.
    pub fn new(cond: ConditionId) -> (r: Not)
        ensures
            r.spec_dependent() == cond,
            r.spec_cache() == None::<bool>,
    {
        Not { dependent: cond, cache: None }
    }

    /// The dependent condition.
    pub fn dependent(&self) -> (r: ConditionId)
        ensures
            r == self.spec_dependent(),
    {
        self.dependent
    }
}

/// A list of dependent conditions with a cached result.
#[derive(Debug, PartialEq)]
pub struct ConditionList {
    dependent_conditions: Vec<ConditionId>,
    cache: Option<bool>,
}

impl ConditionList {
    /// The dependent conditions in order.
    pub closed spec fn spec_dependents(&self) -> Seq<ConditionId> {
        self.dependent_conditions@
    }

    /// The cached result.
    pub closed spec fn spec_cache(&self) -> Option<bool> {
        self.cache
    }

    /// An empty list.
    pub fn new() -> (r: ConditionList)
        ensures
            r.spec_dependents() == Seq::<ConditionId>::empty(),
            r.spec_cache() == None::<bool>,
    {
        ConditionList { dependent_conditions: Vec::new(), cache: None }
    }

    /// Appends a dependent condition.
    pub fn add_condition(&mut self, c: ConditionId)
        ensures
            final(self).spec_dependents() == old(self).spec_dependents().push(c),
            final(self).spec_cache() == old(self).spec_cache(),
    {
        self.dependent_conditions.push(c);
    }

    /// Removes all dependent conditions.
    pub fn clear(&mut self)
        ensures
            final(self).spec_dependents() == Seq::<ConditionId>::empty(),
            final(self).spec_cache() == old(self).spec_cache(),
    {
        self.dependent_conditions.clear();
    }
}

/// True when all dependent conditions are (short circuit, left to right).
#[derive(Debug, PartialEq)]
pub struct And {
    dependencies: ConditionList,
}

impl And {
    /// The dependent conditions.
    pub closed spec fn spec_dependents(&self) -> Seq<ConditionId> {
        self.dependencies.spec_dependents()
    }

    /// The cached result.
    pub closed spec fn spec_cache(&self) -> Option<bool> {
        self.dependencies.spec_cache()
    }

    /// An `And` of nothing (which is true).
    pub fn new() -> (r: And)
        ensures
            r.spec_dependents() == Seq::<ConditionId>::empty(),
            r.spec_cache() == None::<bool>,
    {
        And { dependencies: ConditionList::new() }
    }

    /// Appends a dependent condition.
    pub fn add_condition(&mut self, c: ConditionId) -> (r: &mut Self)
        ensures
            r.spec_dependents() == old(self).spec_dependents().push(c),
            r.spec_cache() == old(self).spec_cache(),
            *final(self) == *final(r),
    {
        self.dependencies.add_condition(c);
        self
    }

    /// Removes all dependent conditions.
    pub fn clear(&mut self) -> (r: &mut Self)
        ensures
            r.spec_dependents() == Seq::<ConditionId>::empty(),
            r.spec_cache() == old(self).spec_cache(),
            *final(self) == *final(r),
    {
        self.dependencies.clear();
        self
    }

    /// The dependent conditions.
    pub fn dependent_conditions(&self) -> (r: Vec<ConditionId>)
        ensures
            r@ == self.spec_dependents(),
    {
        self.dependencies.dependent_conditions.clone()
    }
}

/// True when some dependent condition is; see `or_from` for the exact rule.
#[derive(Debug, PartialEq)]
pub struct Or {
    dependencies: ConditionList,
}

impl Or {
    /// The dependent conditions.
    pub closed spec fn spec_dependents(&self) -> Seq<ConditionId> {
        self.dependencies.spec_dependents()
    }

    /// The cached result.
    pub closed spec fn spec_cache(&self) -> Option<bool> {
        self.dependencies.spec_cache()
    }

    /// An `Or` of nothing (which is true).
    pub fn new() -> (r: Or)
        ensures
            r.spec_dependents() == Seq::<ConditionId>::empty(),
            r.spec_cache() == None::<bool>,
    {
        Or { dependencies: ConditionList::new() }
    }

    /// Appends a dependent condition.
    pub fn add_condition(&mut self, c: ConditionId) -> (r: &mut Self)
        ensures
            r.spec_dependents() == old(self).spec_dependents().push(c),
            r.spec_cache() == old(self).spec_cache(),
            *final(self) == *final(r),
    {
        self.dependencies.add_condition(c);
        self
    }

    /// Removes all dependent conditions.
    pub fn clear(&mut self) -> (r: &mut Self)
        ensures
            r.spec_dependents() == Seq::<ConditionId>::empty(),
            r.spec_cache() == old(self).spec_cache(),
            *final(self) == *final(r),
    {
        self.dependencies.clear();
        self
    }

    /// The dependent conditions.
    pub fn dependent_conditions(&self) -> (r: Vec<ConditionId>)
        ensures
            r@ == self.spec_dependents(),
    {
        self.dependencies.dependent_conditions.clone()
    }
}

/// A condition of any kind.
#[derive(Debug, PartialEq)]
pub enum Condition {
    True(True),
    False(False),
    Not(Not),
    And(And),
    Or(Or),
    Cut(Cut),
    MultiCut(MultiCut),
    Band(Band),
    Contour(Contour),
    MultiContour(MultiContour),
}

/// What evaluation needs to know of a condition.
pub enum CondSpec {
    True,
    False,
    Not(ConditionId),
    And(Seq<ConditionId>),
    Or(Seq<ConditionId>),
    Cut(u32, u64, u64),
    MultiCut(Seq<u32>, u64, u64),
    TwoD,
}

impl Condition {
    /// The condition without its cache.
    pub open spec fn spec(&self) -> CondSpec {
        match self {
            Condition::True(_) => CondSpec::True,
            Condition::False(_) => CondSpec::False,
            Condition::Not(n) => CondSpec::Not(n.spec_dependent()),
            Condition::And(a) => CondSpec::And(a.spec_dependents()),
            Condition::Or(o) => CondSpec::Or(o.spec_dependents()),
            Condition::Cut(c) => CondSpec::Cut(c.spec_parameter(), c.spec_low(), c.spec_high()),
            Condition::MultiCut(m) => CondSpec::MultiCut(m.spec_parameters(), m.spec_low(), m.spec_high()),
            Condition::Band(_) => CondSpec::TwoD,
            Condition::Contour(_) => CondSpec::TwoD,
            Condition::MultiContour(_) => CondSpec::TwoD,
        }
    }

    /// The cached result.
    pub open spec fn cached(&self) -> Option<bool> {
        match self {
            Condition::True(_) => None,
            Condition::False(_) => None,
            Condition::Not(n) => n.spec_cache(),
            Condition::And(a) => a.spec_cache(),
            Condition::Or(o) => o.spec_cache(),
            Condition::Cut(c) => c.spec_cache(),
            Condition::MultiCut(m) => m.spec_cache(),
            Condition::Band(b) => b.spec_cache(),
            Condition::Contour(c) => c.spec_cache(),
            Condition::MultiContour(m) => m.spec_cache(),
        }
    }

    /// The name of the kind of condition.
    pub open spec fn spec_type_name(&self) -> Seq<char> {
        match self {
            Condition::True(_) => "True"@,
            Condition::False(_) => "False"@,
            Condition::Not(_) => "Not"@,
            Condition::And(_) => "And"@,
            Condition::Or(_) => "Or"@,
            Condition::Cut(_) => "Cut"@,
            Condition::MultiCut(_) => "MultiCut"@,
            Condition::Band(_) => "Band"@,
            Condition::Contour(_) => "Contour"@,
            Condition::MultiContour(_) => "MultiContour"@,
        }
    }

    /// The points that describe the condition.
    pub open spec fn spec_points(&self) -> Seq<(u64, u64)> {
        match self {
            Condition::Cut(c) => seq![(c.spec_low(), 0u64), (c.spec_high(), 0u64)],
            Condition::MultiCut(m) => seq![(m.spec_low(), 0u64), (m.spec_high(), 0u64)],
            Condition::Band(b) => point_pairs(b.spec_points()),
            Condition::Contour(c) => point_pairs(c.spec_points()),
            Condition::MultiContour(m) => point_pairs(m.spec_points()),
            _ => Seq::empty(),
        }
    }

    /// The conditions this one depends on.
    pub open spec fn spec_dependent_conditions(&self) -> Seq<ConditionId> {
        match self {
            Condition::Not(n) => seq![n.spec_dependent()],
            Condition::And(a) => a.spec_dependents(),
            Condition::Or(o) => o.spec_dependents(),
            _ => Seq::empty(),
        }
    }

    /// The parameters this condition depends on.
    pub open spec fn spec_dependent_parameters(&self) -> Seq<u32> {
        match self {
            Condition::Cut(c) => seq![c.spec_parameter()],
            Condition::MultiCut(m) => m.spec_parameters(),
            Condition::Band(b) => seq![b.spec_parameters().0, b.spec_parameters().1],
            Condition::Contour(c) => seq![c.spec_parameters().0, c.spec_parameters().1],
            Condition::MultiContour(m) => m.spec_parameters(),
            _ => Seq::empty(),
        }
    }

    /// The name of the kind of condition ("True", "Cut", ...).
    pub fn condition_type(&self) -> (r: String)
        ensures
            r@ == self.spec_type_name(),
    {
        proof {
            reveal_strlit("True");
            reveal_strlit("False");
            reveal_strlit("Not");
            reveal_strlit("And");
            reveal_strlit("Or");
            reveal_strlit("Cut");
            reveal_strlit("MultiCut");
            reveal_strlit("Band");
            reveal_strlit("Contour");
            reveal_strlit("MultiContour");
        }
        match self {
            Condition::True(_) => String::from_str("True"),
            Condition::False(_) => String::from_str("False"),
            Condition::Not(_) => String::from_str("Not"),
            Condition::And(_) => String::from_str("And"),
            Condition::Or(_) => String::from_str("Or"),
            Condition::Cut(_) => String::from_str("Cut"),
            Condition::MultiCut(_) => String::from_str("MultiCut"),
            Condition::Band(_) => String::from_str("Band"),
            Condition::Contour(_) => String::from_str("Contour"),
            Condition::MultiContour(_) => String::from_str("MultiContour"),
        }
    }

    /// The points that describe the condition (cut limits as `(limit, 0)`,
    /// the points of two-dimensional conditions, nothing for the others).
    pub fn condition_points(&self) -> (r: Vec<(u64, u64)>)
        ensures
            r@ == self.spec_points(),
    {
        match self {
            Condition::Cut(c) => c.condition_points(),
            Condition::MultiCut(m) => m.condition_points(),
            Condition::Band(b) => points_as_pairs(&b.get_points()),
            Condition::Contour(c) => points_as_pairs(&c.get_points()),
            Condition::MultiContour(m) => points_as_pairs(&m.get_points()),
            _ => Vec::new(),
        }
    }

    /// The conditions this one depends on.
    pub fn dependent_conditions(&self) -> (r: Vec<ConditionId>)
        ensures
            r@ == self.spec_dependent_conditions(),
    {
        match self {
            Condition::Not(n) => {
                let mut v: Vec<ConditionId> = Vec::new();
                v.push(n.dependent);
                v
            },
            Condition::And(a) => a.dependent_conditions(),
            Condition::Or(o) => o.dependent_conditions(),
            _ => Vec::new(),
        }
    }

    /// The parameters this condition depends on.
    pub fn dependent_parameters(&self) -> (r: Vec<u32>)
        ensures
            r@ == self.spec_dependent_parameters(),
    {
        match self {
            Condition::Cut(c) => c.dependent_parameters(),
            Condition::MultiCut(m) => m.dependent_parameters(),
            Condition::Band(b) => b.dependent_parameters(),
            Condition::Contour(c) => c.dependent_parameters(),
            Condition::MultiContour(m) => m.dependent_parameters(),
            _ => Vec::new(),
        }
    }

    /// The cached result.
    pub fn get_cached_value(&self) -> (r: Option<bool>)
        ensures
            r == self.cached(),
    {
        match self {
            Condition::True(_) => None,
            Condition::False(_) => None,
            Condition::Not(n) => n.cache,
            Condition::And(a) => a.dependencies.cache,
            Condition::Or(o) => o.dependencies.cache,
            Condition::Cut(c) => c.get_cached_value(),
            Condition::MultiCut(m) => m.get_cached_value(),
            Condition::Band(b) => b.get_cached_value(),
            Condition::Contour(c) => c.get_cached_value(),
            Condition::MultiContour(m) => m.get_cached_value(),
        }
    }

    /// Can this condition fold a spectrum?
    pub fn is_fold(&self) -> (r: bool)
        ensures
            r == (self is MultiCut || self is MultiContour),
    {
        match self {
            Condition::MultiCut(_) => true,
            Condition::MultiContour(_) => true,
            _ => false,
        }
    }
}

/// Slot `s` holds a condition.
pub open spec fn live(slots: Seq<Option<CondSpec>>, s: int) -> bool {
    0 <= s < slots.len() && slots[s] is Some
}

/// The result of checking the condition in slot `s` for event `ev`, where
/// `caches[t]` is the cached result of slot `t` (none past the end of
/// `caches`) and `twod[t]` the outcome of the two-dimensional test of slot
/// `t` (false past the end of `twod`), evaluating dependents at most `fuel`
/// deep: a cached result is taken as it is, else the condition is
/// evaluated.  `None` when `fuel` does not suffice (or `s` is not live).
/// With no caches (`caches` empty) this is the value of the condition.
pub open spec fn eval(
    slots: Seq<Option<CondSpec>>,
    caches: Seq<Option<bool>>,
    ev: FlatEvent,
    twod: Seq<bool>,
    s: int,
    fuel: nat,
) -> Option<bool>
    decreases fuel, 0int,
{
    if fuel == 0 || !live(slots, s) {
        None
    } else if s < caches.len() && caches[s] is Some {
        caches[s]
    } else {
        match slots[s]->0 {
            CondSpec::True => Some(true),
            CondSpec::False => Some(false),
            CondSpec::Not(d) => if live(slots, d as int) {
                match eval(slots, caches, ev, twod, d as int, (fuel - 1) as nat) {
                    Some(b) => Some(!b),
                    None => None,
                }
            } else {
                Some(false)
            },
            CondSpec::And(ds) => and_from(slots, caches, ev, twod, ds, 0, (fuel - 1) as nat),
            CondSpec::Or(ds) => or_from(slots, caches, ev, twod, ds, 0, 0, (fuel - 1) as nat),
            CondSpec::Cut(id, low, high) => Some(cut_holds(ev, id, low, high)),
            CondSpec::MultiCut(ps, low, high) => Some(multicut_holds(ev, ps, low, high)),
            CondSpec::TwoD => Some(s < twod.len() && twod[s]),
        }
    }
}

/// An `And` of `ds[k..]`: false at the first deleted or false dependent,
/// true when there is none.
pub open spec fn and_from(
    slots: Seq<Option<CondSpec>>,
    caches: Seq<Option<bool>>,
    ev: FlatEvent,
    twod: Seq<bool>,
    ds: Seq<ConditionId>,
    k: int,
    fuel: nat,
) -> Option<bool>
    decreases fuel, ds.len() - k + 1,
{
    if k < 0 || k >= ds.len() {
        Some(true)
    } else if !live(slots, ds[k] as int) {
        Some(false)
    } else {
        match eval(slots, caches, ev, twod, ds[k] as int, fuel) {
            Some(true) => and_from(slots, caches, ev, twod, ds, k + 1, fuel),
            Some(false) => Some(false),
            None => None,
        }
    }
}

/// An `Or` of `ds[k..]` with `falses` false dependents counted so far:
/// true at the first true dependent; a deleted dependent counts as false;
/// at the end it is false only when every dependent was counted false and
/// there is at least one.
pub open spec fn or_from(
    slots: Seq<Option<CondSpec>>,
    caches: Seq<Option<bool>>,
    ev: FlatEvent,
    twod: Seq<bool>,
    ds: Seq<ConditionId>,
    k: int,
    falses: int,
    fuel: nat,
) -> Option<bool>
    decreases fuel, ds.len() - k + 1,
{
    if k < 0 || k >= ds.len() {
        Some(!(falses == ds.len() && ds.len() > 0))
    } else if !live(slots, ds[k] as int) {
        or_from(slots, caches, ev, twod, ds, k + 1, falses + 1, fuel)
    } else {
        match eval(slots, caches, ev, twod, ds[k] as int, fuel) {
            Some(true) => Some(true),
            Some(false) => or_from(slots, caches, ev, twod, ds, k + 1, falses + 1, fuel),
            None => None,
        }
    }
}

/// More fuel never changes a result that is already defined.
pub proof fn lemma_eval_fuel(
    slots: Seq<Option<CondSpec>>,
    caches: Seq<Option<bool>>,
    ev: FlatEvent,
    twod: Seq<bool>,
    s: int,
    fuel: nat,
)
    requires
        eval(slots, caches, ev, twod, s, fuel) is Some,
    ensures
        eval(slots, caches, ev, twod, s, fuel + 1) == eval(slots, caches, ev, twod, s, fuel),
    decreases fuel, 0int,
{
    if !(s < caches.len() && caches[s] is Some) {
        match slots[s]->0 {
            CondSpec::Not(d) => {
                if live(slots, d as int) {
                    lemma_eval_fuel(slots, caches, ev, twod, d as int, (fuel - 1) as nat);
                }
            },
            CondSpec::And(ds) => {
                lemma_and_fuel(slots, caches, ev, twod, ds, 0, (fuel - 1) as nat);
            },
            CondSpec::Or(ds) => {
                lemma_or_fuel(slots, caches, ev, twod, ds, 0, 0, (fuel - 1) as nat);
            },
            _ => {},
        }
    }
}

proof fn lemma_and_fuel(
    slots: Seq<Option<CondSpec>>,
    caches: Seq<Option<bool>>,
    ev: FlatEvent,
    twod: Seq<bool>,
    ds: Seq<ConditionId>,
    k: int,
    fuel: nat,
)
    requires
        and_from(slots, caches, ev, twod, ds, k, fuel) is Some,
    ensures
        and_from(slots, caches, ev, twod, ds, k, fuel + 1) == and_from(slots, caches, ev, twod, ds, k, fuel),
    decreases fuel, ds.len() - k + 1,
{
    if 0 <= k < ds.len() && live(slots, ds[k] as int) {
        lemma_eval_fuel(slots, caches, ev, twod, ds[k] as int, fuel);
        if eval(slots, caches, ev, twod, ds[k] as int, fuel) == Some(true) {
            lemma_and_fuel(slots, caches, ev, twod, ds, k + 1, fuel);
        }
    }
}

proof fn lemma_or_fuel(
    slots: Seq<Option<CondSpec>>,
    caches: Seq<Option<bool>>,
    ev: FlatEvent,
    twod: Seq<bool>,
    ds: Seq<ConditionId>,
    k: int,
    falses: int,
    fuel: nat,
)
    requires
        or_from(slots, caches, ev, twod, ds, k, falses, fuel) is Some,
    ensures
        or_from(slots, caches, ev, twod, ds, k, falses, fuel + 1) == or_from(slots, caches, ev, twod, ds, k, falses, fuel),
    decreases fuel, ds.len() - k + 1,
{
    if 0 <= k < ds.len() {
        if !live(slots, ds[k] as int) {
            lemma_or_fuel(slots, caches, ev, twod, ds, k + 1, falses + 1, fuel);
        } else {
            lemma_eval_fuel(slots, caches, ev, twod, ds[k] as int, fuel);
            if eval(slots, caches, ev, twod, ds[k] as int, fuel) == Some(false) {
                lemma_or_fuel(slots, caches, ev, twod, ds, k + 1, falses + 1, fuel);
            }
        }
    }
}

/// Two defined results for the same condition agree, whatever the fuel.
pub proof fn lemma_eval_agree(
    slots: Seq<Option<CondSpec>>,
    caches: Seq<Option<bool>>,
    ev: FlatEvent,
    twod: Seq<bool>,
    s: int,
    f1: nat,
    f2: nat,
)
    requires
        eval(slots, caches, ev, twod, s, f1) is Some,
        eval(slots, caches, ev, twod, s, f2) is Some,
    ensures
        eval(slots, caches, ev, twod, s, f1) == eval(slots, caches, ev, twod, s, f2),
    decreases if f1 <= f2 { f2 - f1 } else { f1 - f2 },
{
    if f1 < f2 {
        lemma_eval_fuel(slots, caches, ev, twod, s, f1);
        lemma_eval_agree(slots, caches, ev, twod, s, f1 + 1, f2);
    } else if f2 < f1 {
        lemma_eval_fuel(slots, caches, ev, twod, s, f2);
        lemma_eval_agree(slots, caches, ev, twod, s, f1, f2 + 1);
    }
}

/// Caching a result that checking gives leaves every defined result as it
/// is: with `caches[u]` set to the result `eval` gives for `u`, every slot
/// whose result was defined with `fuel` keeps it.
proof fn lemma_cache_update(
    slots: Seq<Option<CondSpec>>,
    caches: Seq<Option<bool>>,
    ev: FlatEvent,
    twod: Seq<bool>,
    u: int,
    g: nat,
    t: int,
    fuel: nat,
)
    requires
        0 <= u < caches.len(),
        eval(slots, caches, ev, twod, u, g) is Some,
        eval(slots, caches, ev, twod, t, fuel) is Some,
    ensures
        eval(slots, caches.update(u, eval(slots, caches, ev, twod, u, g)), ev, twod, t, fuel) == eval(
            slots,
            caches,
            ev,
            twod,
            t,
            fuel,
        ),
    decreases fuel, 0int,
{
    let c2 = caches.update(u, eval(slots, caches, ev, twod, u, g));
    if t == u {
        lemma_eval_agree(slots, caches, ev, twod, u, g, fuel);
    } else if !(t < caches.len() && caches[t] is Some) {
        match slots[t]->0 {
            CondSpec::Not(d) => {
                if live(slots, d as int) {
                    lemma_cache_update(slots, caches, ev, twod, u, g, d as int, (fuel - 1) as nat);
                }
            },
            CondSpec::And(ds) => {
                lemma_and_cache_update(slots, caches, ev, twod, u, g, ds, 0, (fuel - 1) as nat);
            },
            CondSpec::Or(ds) => {
                lemma_or_cache_update(slots, caches, ev, twod, u, g, ds, 0, 0, (fuel - 1) as nat);
            },
            _ => {},
        }
    }
}

proof fn lemma_and_cache_update(
    slots: Seq<Option<CondSpec>>,
    caches: Seq<Option<bool>>,
    ev: FlatEvent,
    twod: Seq<bool>,
    u: int,
    g: nat,
    ds: Seq<ConditionId>,
    k: int,
    fuel: nat,
)
    requires
        0 <= u < caches.len(),
        eval(slots, caches, ev, twod, u, g) is Some,
        and_from(slots, caches, ev, twod, ds, k, fuel) is Some,
    ensures
        and_from(slots, caches.update(u, eval(slots, caches, ev, twod, u, g)), ev, twod, ds, k, fuel) == and_from(
            slots,
            caches,
            ev,
            twod,
            ds,
            k,
            fuel,
        ),
    decreases fuel, ds.len() - k + 1,
{
    if 0 <= k < ds.len() && live(slots, ds[k] as int) {
        lemma_cache_update(slots, caches, ev, twod, u, g, ds[k] as int, fuel);
        if eval(slots, caches, ev, twod, ds[k] as int, fuel) == Some(true) {
            lemma_and_cache_update(slots, caches, ev, twod, u, g, ds, k + 1, fuel);
        }
    }
}

proof fn lemma_or_cache_update(
    slots: Seq<Option<CondSpec>>,
    caches: Seq<Option<bool>>,
    ev: FlatEvent,
    twod: Seq<bool>,
    u: int,
    g: nat,
    ds: Seq<ConditionId>,
    k: int,
    falses: int,
    fuel: nat,
)
    requires
        0 <= u < caches.len(),
        eval(slots, caches, ev, twod, u, g) is Some,
        or_from(slots, caches, ev, twod, ds, k, falses, fuel) is Some,
    ensures
        or_from(slots, caches.update(u, eval(slots, caches, ev, twod, u, g)), ev, twod, ds, k, falses, fuel)
            == or_from(slots, caches, ev, twod, ds, k, falses, fuel),
    decreases fuel, ds.len() - k + 1,
{
    if 0 <= k < ds.len() {
        if !live(slots, ds[k] as int) {
            lemma_or_cache_update(slots, caches, ev, twod, u, g, ds, k + 1, falses + 1, fuel);
        } else {
            lemma_cache_update(slots, caches, ev, twod, u, g, ds[k] as int, fuel);
            if eval(slots, caches, ev, twod, ds[k] as int, fuel) == Some(false) {
                lemma_or_cache_update(slots, caches, ev, twod, u, g, ds, k + 1, falses + 1, fuel);
            }
        }
    }
}

/// Caches that hold nothing check as no caches at all.
proof fn lemma_no_caches(
    slots: Seq<Option<CondSpec>>,
    caches: Seq<Option<bool>>,
    ev: FlatEvent,
    twod: Seq<bool>,
    t: int,
    fuel: nat,
)
    requires
        forall|i: int| 0 <= i < caches.len() ==> #[trigger] caches[i] is None,
    ensures
        eval(slots, caches, ev, twod, t, fuel) == eval(slots, Seq::<Option<bool>>::empty(), ev, twod, t, fuel),
    decreases fuel, 0int,
{
    if fuel > 0 && live(slots, t) {
        match slots[t]->0 {
            CondSpec::Not(d) => {
                lemma_no_caches(slots, caches, ev, twod, d as int, (fuel - 1) as nat);
            },
            CondSpec::And(ds) => {
                lemma_and_no_caches(slots, caches, ev, twod, ds, 0, (fuel - 1) as nat);
            },
            CondSpec::Or(ds) => {
                lemma_or_no_caches(slots, caches, ev, twod, ds, 0, 0, (fuel - 1) as nat);
            },
            _ => {},
        }
    }
}

proof fn lemma_and_no_caches(
    slots: Seq<Option<CondSpec>>,
    caches: Seq<Option<bool>>,
    ev: FlatEvent,
    twod: Seq<bool>,
    ds: Seq<ConditionId>,
    k: int,
    fuel: nat,
)
    requires
        forall|i: int| 0 <= i < caches.len() ==> #[trigger] caches[i] is None,
    ensures
        and_from(slots, caches, ev, twod, ds, k, fuel) == and_from(
            slots,
            Seq::<Option<bool>>::empty(),
            ev,
            twod,
            ds,
            k,
            fuel,
        ),
    decreases fuel, ds.len() - k + 1,
{
    if 0 <= k < ds.len() && live(slots, ds[k] as int) {
        lemma_no_caches(slots, caches, ev, twod, ds[k] as int, fuel);
        lemma_and_no_caches(slots, caches, ev, twod, ds, k + 1, fuel);
    }
}

proof fn lemma_or_no_caches(
    slots: Seq<Option<CondSpec>>,
    caches: Seq<Option<bool>>,
    ev: FlatEvent,
    twod: Seq<bool>,
    ds: Seq<ConditionId>,
    k: int,
    falses: int,
    fuel: nat,
)
    requires
        forall|i: int| 0 <= i < caches.len() ==> #[trigger] caches[i] is None,
    ensures
        or_from(slots, caches, ev, twod, ds, k, falses, fuel) == or_from(
            slots,
            Seq::<Option<bool>>::empty(),
            ev,
            twod,
            ds,
            k,
            falses,
            fuel,
        ),
    decreases fuel, ds.len() - k + 1,
{
    if 0 <= k < ds.len() {
        if !live(slots, ds[k] as int) {
            lemma_or_no_caches(slots, caches, ev, twod, ds, k + 1, falses + 1, fuel);
        } else {
            lemma_no_caches(slots, caches, ev, twod, ds[k] as int, fuel);
            lemma_or_no_caches(slots, caches, ev, twod, ds, k + 1, falses, fuel);
            lemma_or_no_caches(slots, caches, ev, twod, ds, k + 1, falses + 1, fuel);
        }
    }
}

/// Checking slot `s` with `fuel` reaches slot `t`: `t` is `s`, or `s` has
/// no cached result and `t` is reached through its dependents, in order,
/// up to the first that settles the result (a false dependent of an `And`,
/// a true one of an `Or`, or a deleted dependent of an `And`).
pub open spec fn reaches(
    slots: Seq<Option<CondSpec>>,
    caches: Seq<Option<bool>>,
    ev: FlatEvent,
    twod: Seq<bool>,
    t: int,
    s: int,
    fuel: nat,
) -> bool
    decreases fuel, 0int,
{
    fuel > 0 && live(slots, s) && (t == s || (!(s < caches.len() && caches[s] is Some) && match slots[s]->0 {
        CondSpec::Not(d) => live(slots, d as int) && reaches(slots, caches, ev, twod, t, d as int, (fuel - 1) as nat),
        CondSpec::And(ds) => and_reaches(slots, caches, ev, twod, t, ds, 0, (fuel - 1) as nat),
        CondSpec::Or(ds) => or_reaches(slots, caches, ev, twod, t, ds, 0, (fuel - 1) as nat),
        _ => false,
    }))
}

/// Checking the dependents `ds[k..]` of an `And` reaches `t`.
pub open spec fn and_reaches(
    slots: Seq<Option<CondSpec>>,
    caches: Seq<Option<bool>>,
    ev: FlatEvent,
    twod: Seq<bool>,
    t: int,
    ds: Seq<ConditionId>,
    k: int,
    fuel: nat,
) -> bool
    decreases fuel, ds.len() - k + 1,
{
    0 <= k < ds.len() && live(slots, ds[k] as int) && (reaches(slots, caches, ev, twod, t, ds[k] as int, fuel) || (
    eval(slots, caches, ev, twod, ds[k] as int, fuel) == Some(true) && and_reaches(
        slots,
        caches,
        ev,
        twod,
        t,
        ds,
        k + 1,
        fuel,
    )))
}

/// Checking the dependents `ds[k..]` of an `Or` reaches `t`.
pub open spec fn or_reaches(
    slots: Seq<Option<CondSpec>>,
    caches: Seq<Option<bool>>,
    ev: FlatEvent,
    twod: Seq<bool>,
    t: int,
    ds: Seq<ConditionId>,
    k: int,
    fuel: nat,
) -> bool
    decreases fuel, ds.len() - k + 1,
{
    0 <= k < ds.len() && if live(slots, ds[k] as int) {
        reaches(slots, caches, ev, twod, t, ds[k] as int, fuel) || (eval(slots, caches, ev, twod, ds[k] as int, fuel)
            == Some(false) && or_reaches(slots, caches, ev, twod, t, ds, k + 1, fuel))
    } else {
        or_reaches(slots, caches, ev, twod, t, ds, k + 1, fuel)
    }
}

/// What checking reaches with more caches (that agree with the results)
/// it reached with fewer.
proof fn lemma_reaches_fewer(
    slots: Seq<Option<CondSpec>>,
    c0: Seq<Option<bool>>,
    c1: Seq<Option<bool>>,
    ev: FlatEvent,
    twod: Seq<bool>,
    t: int,
    s: int,
    fuel: nat,
)
    requires
        c0.len() == c1.len(),
        forall|u: int| 0 <= u < c0.len() && #[trigger] c0[u] is Some ==> c1[u] == c0[u],
        forall|u: int, f: nat| #[trigger] eval(slots, c0, ev, twod, u, f) is Some ==> eval(slots, c1, ev, twod, u, f) == eval(slots, c0, ev, twod, u, f),
        eval(slots, c0, ev, twod, s, fuel) is Some,
        reaches(slots, c1, ev, twod, t, s, fuel),
    ensures
        reaches(slots, c0, ev, twod, t, s, fuel),
    decreases fuel, 0int,
{
    if t != s {
        if s < c0.len() && c0[s] is Some {
            assert(c1[s] == c0[s]);
        }
        match slots[s]->0 {
            CondSpec::Not(d) => {
                lemma_reaches_fewer(slots, c0, c1, ev, twod, t, d as int, (fuel - 1) as nat);
            },
            CondSpec::And(ds) => {
                lemma_and_reaches_fewer(slots, c0, c1, ev, twod, t, ds, 0, (fuel - 1) as nat);
            },
            CondSpec::Or(ds) => {
                lemma_or_reaches_fewer(slots, c0, c1, ev, twod, t, ds, 0, 0, (fuel - 1) as nat);
            },
            _ => {},
        }
    }
}

proof fn lemma_and_reaches_fewer(
    slots: Seq<Option<CondSpec>>,
    c0: Seq<Option<bool>>,
    c1: Seq<Option<bool>>,
    ev: FlatEvent,
    twod: Seq<bool>,
    t: int,
    ds: Seq<ConditionId>,
    k: int,
    fuel: nat,
)
    requires
        c0.len() == c1.len(),
        forall|u: int| 0 <= u < c0.len() && #[trigger] c0[u] is Some ==> c1[u] == c0[u],
        forall|u: int, f: nat| #[trigger] eval(slots, c0, ev, twod, u, f) is Some ==> eval(slots, c1, ev, twod, u, f) == eval(slots, c0, ev, twod, u, f),
        and_from(slots, c0, ev, twod, ds, k, fuel) is Some,
        and_reaches(slots, c1, ev, twod, t, ds, k, fuel),
    ensures
        and_reaches(slots, c0, ev, twod, t, ds, k, fuel),
    decreases fuel, ds.len() - k + 1,
{
    let d = ds[k] as int;
    if reaches(slots, c1, ev, twod, t, d, fuel) {
        lemma_reaches_fewer(slots, c0, c1, ev, twod, t, d, fuel);
    } else {
        assert(eval(slots, c0, ev, twod, d, fuel) is Some);
        lemma_and_reaches_fewer(slots, c0, c1, ev, twod, t, ds, k + 1, fuel);
    }
}

proof fn lemma_or_reaches_fewer(
    slots: Seq<Option<CondSpec>>,
    c0: Seq<Option<bool>>,
    c1: Seq<Option<bool>>,
    ev: FlatEvent,
    twod: Seq<bool>,
    t: int,
    ds: Seq<ConditionId>,
    k: int,
    falses: int,
    fuel: nat,
)
    requires
        c0.len() == c1.len(),
        forall|u: int| 0 <= u < c0.len() && #[trigger] c0[u] is Some ==> c1[u] == c0[u],
        forall|u: int, f: nat| #[trigger] eval(slots, c0, ev, twod, u, f) is Some ==> eval(slots, c1, ev, twod, u, f) == eval(slots, c0, ev, twod, u, f),
        or_from(slots, c0, ev, twod, ds, k, falses, fuel) is Some,
        or_reaches(slots, c1, ev, twod, t, ds, k, fuel),
    ensures
        or_reaches(slots, c0, ev, twod, t, ds, k, fuel),
    decreases fuel, ds.len() - k + 1,
{
    let d = ds[k] as int;
    if live(slots, d) {
        if reaches(slots, c1, ev, twod, t, d, fuel) {
            lemma_reaches_fewer(slots, c0, c1, ev, twod, t, d, fuel);
        } else {
            assert(eval(slots, c0, ev, twod, d, fuel) is Some);
            lemma_or_reaches_fewer(slots, c0, c1, ev, twod, t, ds, k + 1, falses + 1, fuel);
        }
    } else {
        lemma_or_reaches_fewer(slots, c0, c1, ev, twod, t, ds, k + 1, falses + 1, fuel);
    }
}

/// With the dependents before `ds[k]` all live and true, what checking
/// `ds[k]` reaches, checking the `And` from its first dependent reaches.
proof fn lemma_and_reaches_at(
    slots: Seq<Option<CondSpec>>,
    caches: Seq<Option<bool>>,
    ev: FlatEvent,
    twod: Seq<bool>,
    t: int,
    ds: Seq<ConditionId>,
    i: int,
    k: int,
    fuel: nat,
)
    requires
        0 <= i <= k < ds.len(),
        forall|j: int| 0 <= j < k ==> live(slots, #[trigger] ds[j] as int) && eval(slots, caches, ev, twod, ds[j] as int, fuel) == Some(true),
        live(slots, ds[k] as int),
        reaches(slots, caches, ev, twod, t, ds[k] as int, fuel),
    ensures
        and_reaches(slots, caches, ev, twod, t, ds, i, fuel),
    decreases k - i,
{
    if i < k {
        assert(live(slots, ds[i] as int));
        lemma_and_reaches_at(slots, caches, ev, twod, t, ds, i + 1, k, fuel);
    }
}

/// With the dependents before `ds[k]` each deleted or false, what checking
/// `ds[k]` reaches, checking the `Or` from its first dependent reaches.
proof fn lemma_or_reaches_at(
    slots: Seq<Option<CondSpec>>,
    caches: Seq<Option<bool>>,
    ev: FlatEvent,
    twod: Seq<bool>,
    t: int,
    ds: Seq<ConditionId>,
    i: int,
    k: int,
    fuel: nat,
)
    requires
        0 <= i <= k < ds.len(),
        forall|j: int| 0 <= j < k ==> !live(slots, #[trigger] ds[j] as int) || eval(slots, caches, ev, twod, ds[j] as int, fuel) == Some(false),
        live(slots, ds[k] as int),
        reaches(slots, caches, ev, twod, t, ds[k] as int, fuel),
    ensures
        or_reaches(slots, caches, ev, twod, t, ds, i, fuel),
    decreases k - i,
{
    if i < k {
        assert(!live(slots, ds[i] as int) || eval(slots, caches, ev, twod, ds[i] as int, fuel) == Some(false));
        lemma_or_reaches_at(slots, caches, ev, twod, t, ds, i + 1, k, fuel);
    }
}

/// Keeping results is transitive.
proof fn lemma_kept_trans(
    a: Seq<Option<(Seq<char>, Condition)>>,
    b: Seq<Option<(Seq<char>, Condition)>>,
    c: Seq<Option<(Seq<char>, Condition)>>,
    ev: FlatEvent,
    twod: Seq<bool>,
)
    requires
        results_kept(a, b, ev, twod),
        results_kept(b, c, ev, twod),
    ensures
        results_kept(a, c, ev, twod),
{
    assert forall|t: int, f: nat| #[trigger] eval(slot_specs(a), slot_caches(a), ev, twod, t, f) is Some implies eval(
        slot_specs(c),
        slot_caches(c),
        ev,
        twod,
        t,
        f,
    ) == eval(slot_specs(a), slot_caches(a), ev, twod, t, f) by {
        assert(eval(slot_specs(b), slot_caches(b), ev, twod, t, f) == eval(slot_specs(a), slot_caches(a), ev, twod, t, f));
    }
}

impl Condition {
    /// Records `v` as the cached result; `True` and `False` do not cache.
    pub fn set_cached_value(&mut self, v: Option<bool>)
        ensures
            final(self).spec() == old(self).spec(),
            final(self).spec_type_name() == old(self).spec_type_name(),
            final(self).spec_points() == old(self).spec_points(),
            final(self).spec_dependent_conditions() == old(self).spec_dependent_conditions(),
            final(self).spec_dependent_parameters() == old(self).spec_dependent_parameters(),
            final(self).cached() == if *old(self) is True || *old(self) is False {
                None
            } else {
                v
            },
    {
        match self {
            Condition::True(_) => {},
            Condition::False(_) => {},
            Condition::Not(n) => {
                n.cache = v;
            },
            Condition::And(a) => {
                a.dependencies.cache = v;
            },
            Condition::Or(o) => {
                o.dependencies.cache = v;
            },
            Condition::Cut(c) => c.set_cached_value(v),
            Condition::MultiCut(m) => m.set_cached_value(v),
            Condition::Band(b) => b.set_cached_value(v),
            Condition::Contour(c) => c.set_cached_value(v),
            Condition::MultiContour(m) => m.set_cached_value(v),
        }
    }
}

/// A named condition in a slot of the dictionary.
pub struct ConditionEntry {
    name: String,
    condition: Condition,
}

/// The evaluation specification of the conditions in a sequence of slots.
pub open spec fn slot_specs(entries: Seq<Option<(Seq<char>, Condition)>>) -> Seq<Option<CondSpec>> {
    Seq::new(
        entries.len(),
        |i: int|
            match entries[i] {
                Some(e) => Some(e.1.spec()),
                None => None,
            },
    )
}

/// The cached results of the conditions in a sequence of slots.
pub open spec fn slot_caches(entries: Seq<Option<(Seq<char>, Condition)>>) -> Seq<Option<bool>> {
    Seq::new(
        entries.len(),
        |i: int|
            match entries[i] {
                Some(e) => e.1.cached(),
                None => None,
            },
    )
}

/// The name in an occupied slot.
pub open spec fn entry_name(e: Option<(Seq<char>, Condition)>) -> Seq<char> {
    match e {
        Some(p) => p.0,
        None => Seq::empty(),
    }
}

/// The condition in an occupied slot.
pub open spec fn entry_cond(e: Option<(Seq<char>, Condition)>) -> Condition {
    match e {
        Some(p) => p.1,
        None => Condition::True(True {}),
    }
}

/// Some string of `v` is `n`.
pub open spec fn string_listed(v: Seq<String>, n: Seq<char>) -> bool {
    exists|k: int| 0 <= k < v.len() && #[trigger] v[k]@ == n
}

/// Some slot below `i` holds the condition named `n`.
pub open spec fn named_before(entries: Seq<Option<(Seq<char>, Condition)>>, n: Seq<char>, i: int) -> bool {
    exists|j: int| 0 <= j < i && #[trigger] named(entries, n, j)
}

/// Slot `s` holds the condition named `name`.
pub open spec fn named(entries: Seq<Option<(Seq<char>, Condition)>>, name: Seq<char>, s: int) -> bool {
    0 <= s < entries.len() && entries[s] is Some && entry_name(entries[s]) == name
}

/// Some slot holds a condition named `name`.
pub open spec fn has_named(entries: Seq<Option<(Seq<char>, Condition)>>, name: Seq<char>) -> bool {
    exists|s: int| #[trigger] named(entries, name, s)
}

/// Every result that checking gives in `a` for `ev` is the one it gives in
/// `b`.
pub open spec fn results_kept(
    a: Seq<Option<(Seq<char>, Condition)>>,
    b: Seq<Option<(Seq<char>, Condition)>>,
    ev: FlatEvent,
    twod: Seq<bool>,
) -> bool {
    forall|t: int, f: nat|
        #[trigger] eval(slot_specs(a), slot_caches(a), ev, twod, t, f) is Some ==> eval(
            slot_specs(b),
            slot_caches(b),
            ev,
            twod,
            t,
            f,
        ) == eval(slot_specs(a), slot_caches(a), ev, twod, t, f)
}

/// What slot `s` caches once it has been checked with result `r`: `True`
/// and `False` cache nothing, every other condition caches `r`.
pub open spec fn caching_result(entries: Seq<Option<(Seq<char>, Condition)>>, s: int, r: bool) -> Option<bool> {
    if entry_cond(entries[s]) is True || entry_cond(entries[s]) is False {
        None
    } else {
        Some(r)
    }
}

/// `b` holds the same named conditions as `a` in the same slots; only
/// cached results may differ.
pub open spec fn same_conditions(a: Seq<Option<(Seq<char>, Condition)>>, b: Seq<Option<(Seq<char>, Condition)>>) -> bool {
    &&& a.len() == b.len()
    &&& slot_specs(a) == slot_specs(b)
    &&& forall|i: int| 0 <= i < a.len() ==> (#[trigger] a[i] is Some <==> b[i] is Some)
    &&& forall|i: int| 0 <= i < a.len() && a[i] is Some ==> #[trigger] entry_name(a[i]) == entry_name(b[i])
}

/// The conditions of the histogrammer, by name, each in a slot.
pub struct ConditionDictionary {
    slots: Vec<Option<ConditionEntry>>,
}

enum Step {
    Const(bool),
    NotOf(ConditionId),
    AndOf(Vec<ConditionId>),
    OrOf(Vec<ConditionId>),
    Leaf,
}

impl ConditionDictionary {
    /// The slots: the name and condition each holds, `None` once deleted.
    pub closed spec fn entries(&self) -> Seq<Option<(Seq<char>, Condition)>> {
        Seq::new(
            self.slots@.len(),
            |i: int|
                match self.slots@[i] {
                    Some(e) => Some((e.name@, e.condition)),
                    None => None,
                },
        )
    }

    /// Live slots have distinct names.
    pub open spec fn wf(&self) -> bool {
        forall|i: int, j: int|
            0 <= i < self.entries().len() && 0 <= j < self.entries().len() && i != j && self.entries()[i] is Some
                && self.entries()[j] is Some ==> #[trigger] entry_name(self.entries()[i]) != #[trigger] entry_name(self.entries()[j])
    }

    /// The value of the condition in slot `s` is defined for `ev`: the
    /// condition does not depend on itself.
    pub open spec fn evaluable(&self, s: int, ev: FlatEvent, twod: Seq<bool>) -> bool {
        exists|f: nat| #[trigger] eval(slot_specs(self.entries()), Seq::empty(), ev, twod, s, f) is Some
    }

    /// The value of the condition in slot `s` for `ev`, cached results
    /// aside.
    pub open spec fn value(&self, s: int, ev: FlatEvent, twod: Seq<bool>) -> bool {
        let f = choose|f: nat| #[trigger] eval(slot_specs(self.entries()), Seq::empty(), ev, twod, s, f) is Some;
        eval(slot_specs(self.entries()), Seq::empty(), ev, twod, s, f)->0
    }

    /// Checking slot `s` for `ev` ends: no condition is reached again
    /// before a cached result or a leaf.
    pub open spec fn checkable(&self, s: int, ev: FlatEvent, twod: Seq<bool>) -> bool {
        exists|f: nat| #[trigger] eval(slot_specs(self.entries()), slot_caches(self.entries()), ev, twod, s, f) is Some
    }

    /// Checking slot `s` for `ev` reaches slot `t` (see `reaches`): the
    /// slots whose cached results a check of `s` may set.
    pub open spec fn check_reaches(&self, t: int, s: int, ev: FlatEvent, twod: Seq<bool>) -> bool {
        let f = choose|f: nat|
            #[trigger] eval(slot_specs(self.entries()), slot_caches(self.entries()), ev, twod, s, f) is Some;
        reaches(slot_specs(self.entries()), slot_caches(self.entries()), ev, twod, t, s, f)
    }

    /// What checking slot `s` for `ev` gives: cached results are taken as
    /// they are.
    pub open spec fn check_result(&self, s: int, ev: FlatEvent, twod: Seq<bool>) -> bool {
        let f = choose|f: nat|
            #[trigger] eval(slot_specs(self.entries()), slot_caches(self.entries()), ev, twod, s, f) is Some;
        eval(slot_specs(self.entries()), slot_caches(self.entries()), ev, twod, s, f)->0
    }

    /// An empty dictionary.
    pub fn new() -> (r: ConditionDictionary)
        ensures
            r.wf(),
            r.entries() == Seq::<Option<(Seq<char>, Condition)>>::empty(),
    {
        let r = ConditionDictionary { slots: Vec::new() };
        proof {
            assert(r.entries() =~= Seq::<Option<(Seq<char>, Condition)>>::empty());
        }
        r
    }

    /// The number of slots (live or deleted).
    pub fn slot_count(&self) -> (r: usize)
        ensures
            r == self.entries().len(),
    {
        self.slots.len()
    }

    fn find(&self, name: &String) -> (r: Option<usize>)
        ensures
            match r {
                Some(s) => named(self.entries(), name@, s as int),
                None => !has_named(self.entries(), name@),
            },
    {
        let mut i: usize = 0;
        while i < self.slots.len()
            invariant
                i <= self.slots@.len(),
                forall|j: int| 0 <= j < i ==> !#[trigger] named(self.entries(), name@, j),
            decreases self.slots@.len() - i,
        {
            match &self.slots[i] {
                Some(e) => {
                    if e.name == *name {
                        return Some(i);
                    }
                },
                None => {},
            }
            i = i + 1;
        }
        None
    }

    /// The slot of the condition named `name`.
    pub fn get(&self, name: &str) -> (r: Option<ConditionId>)
        ensures
            match r {
                Some(s) => named(self.entries(), name@, s as int),
                None => !has_named(self.entries(), name@),
            },
    {
        let key = String::from_str(name);
        self.find(&key)
    }

    /// Gives `name` the condition `cond`.  An existing name keeps its slot
    /// (conditions that depend on it now depend on `cond`) and the result
    /// is `true`; a new name gets a new slot and the result is `false`.
    pub fn insert(&mut self, name: &str, cond: Condition) -> (replaced: bool)
        requires
            old(self).wf(),
        ensures
            final(self).wf(),
            replaced == has_named(old(self).entries(), name@),
            replaced ==> exists|s: int|
                named(old(self).entries(), name@, s) && final(self).entries() == old(self).entries().update(
                    s,
                    Some((name@, cond)),
                ),
            !replaced ==> final(self).entries() == old(self).entries().push(Some((name@, cond))),
    {
        let key = String::from_str(name);
        match self.find(&key) {
            Some(s) => {
                self.slots.set(s, Some(ConditionEntry { name: key, condition: cond }));
                proof {
                    assert(self.entries() =~= old(self).entries().update(s as int, Some((name@, cond))));
                }
                true
            },
            None => {
                self.slots.push(Some(ConditionEntry { name: key, condition: cond }));
                proof {
                    assert(self.entries() =~= old(self).entries().push(Some((name@, cond))));
                    assert forall|i: int, j: int|
                        0 <= i < self.entries().len() && 0 <= j < self.entries().len() && i != j
                            && self.entries()[i] is Some && self.entries()[j] is Some implies #[trigger] entry_name(self.entries()[i])
                        != #[trigger] entry_name(self.entries()[j]) by {
                        if i == self.entries().len() - 1 {
                            assert(!named(old(self).entries(), name@, j));
                        }
                        if j == self.entries().len() - 1 {
                            assert(!named(old(self).entries(), name@, i));
                        }
                    }
                }
                false
            },
        }
    }

    /// Deletes the condition named `name`: its slot is emptied for good.
    /// `false` when there is no such condition.
    pub fn remove(&mut self, name: &str) -> (r: bool)
        requires
            old(self).wf(),
        ensures
            final(self).wf(),
            r == has_named(old(self).entries(), name@),
            r ==> exists|s: int|
                named(old(self).entries(), name@, s) && final(self).entries() == old(self).entries().update(s, None),
            !r ==> final(self).entries() == old(self).entries(),
    {
        let key = String::from_str(name);
        match self.find(&key) {
            Some(s) => {
                self.slots.set(s, None);
                proof {
                    assert(self.entries() =~= old(self).entries().update(s as int, None));
                }
                true
            },
            None => false,
        }
    }

    /// The name of the condition in slot `s`, `None` if it was deleted.
    pub fn condition_name(&self, s: ConditionId) -> (r: Option<String>)
        ensures
            match r {
                Some(n) => 0 <= s < self.entries().len() && self.entries()[s as int] is Some
                    && entry_name(self.entries()[s as int]) == n@,
                None => !(0 <= s < self.entries().len() && self.entries()[s as int] is Some),
            },
    {
        if s < self.slots.len() {
            match &self.slots[s] {
                Some(e) => Some(e.name.clone()),
                None => None,
            }
        } else {
            None
        }
    }

    /// The name of the condition that a dependent reference `s` (a slot)
    /// leads to; `None` once that condition was deleted.
    pub fn condition_name_from_ref(&self, s: ConditionId) -> (r: Option<String>)
        ensures
            match r {
                Some(n) => 0 <= s < self.entries().len() && self.entries()[s as int] is Some
                    && entry_name(self.entries()[s as int]) == n@,
                None => !(0 <= s < self.entries().len() && self.entries()[s as int] is Some),
            },
    {
        self.condition_name(s)
    }

    /// The condition in slot `s`, `None` if it was deleted.
    pub fn get_condition(&self, s: ConditionId) -> (r: Option<&Condition>)
        ensures
            match r {
                Some(c) => 0 <= s < self.entries().len() && self.entries()[s as int] is Some
                    && entry_cond(self.entries()[s as int]) == *c,
                None => !(0 <= s < self.entries().len() && self.entries()[s as int] is Some),
            },
    {
        if s < self.slots.len() {
            match &self.slots[s] {
                Some(e) => Some(&e.condition),
                None => None,
            }
        } else {
            None
        }
    }

    /// The cached result of the condition in slot `s`.
    pub fn get_cached_value(&self, s: ConditionId) -> (r: Option<bool>)
        ensures
            r == if 0 <= s < self.entries().len() {
                slot_caches(self.entries())[s as int]
            } else {
                None
            },
    {
        if s < self.slots.len() {
            match &self.slots[s] {
                Some(e) => e.condition.get_cached_value(),
                None => None,
            }
        } else {
            None
        }
    }

    fn set_cache(&mut self, s: usize, v: Option<bool>)
        requires
            s < old(self).entries().len(),
        ensures
            final(self).entries().len() == old(self).entries().len(),
            slot_specs(final(self).entries()) == slot_specs(old(self).entries()),
            forall|i: int|
                0 <= i < final(self).entries().len() ==> (#[trigger] final(self).entries()[i] is Some <==> old(
                    self,
                ).entries()[i] is Some),
            forall|i: int|
                0 <= i < final(self).entries().len() && final(self).entries()[i] is Some ==> #[trigger] entry_name(final(self).entries()[i])
                    == entry_name(old(self).entries()[i]),
            forall|i: int|
                0 <= i < final(self).entries().len() && i != s ==> #[trigger] slot_caches(final(self).entries())[i]
                    == slot_caches(old(self).entries())[i],
            old(self).entries()[s as int] is Some ==> slot_caches(final(self).entries())[s as int] == if entry_cond(old(self).entries()[s as int]) is True || entry_cond(old(self).entries()[s as int]) is False {
                None
            } else {
                v
            },
            old(self).entries()[s as int] is None ==> final(self).entries() == old(self).entries(),
    {
        let ghost before = self.slots@;
        match &mut self.slots[s] {
            Some(e) => {
                e.condition.set_cached_value(v);
            },
            None => {},
        }
        proof {
            assert(slot_specs(self.entries()) =~= slot_specs(old(self).entries()));
            if old(self).entries()[s as int] is None {
                assert(self.entries() =~= old(self).entries());
            }
        }
    }
}

impl ConditionDictionary {
    fn is_live(&self, s: usize) -> (r: bool)
        ensures
            r == live(slot_specs(self.entries()), s as int),
    {
        s < self.slots.len() && self.slots[s].is_some()
    }

    fn step_of(&self, s: usize) -> (r: Step)
        requires
            live(slot_specs(self.entries()), s as int),
        ensures
            match r {
                Step::Const(b) => (slot_specs(self.entries())[s as int]->0 is True && b) || (slot_specs(
                    self.entries(),
                )[s as int]->0 is False && !b),
                Step::NotOf(d) => slot_specs(self.entries())[s as int]->0 == CondSpec::Not(d),
                Step::AndOf(v) => slot_specs(self.entries())[s as int]->0 == CondSpec::And(v@),
                Step::OrOf(v) => slot_specs(self.entries())[s as int]->0 == CondSpec::Or(v@),
                Step::Leaf => {
                    ||| slot_specs(self.entries())[s as int]->0 is Cut
                    ||| slot_specs(self.entries())[s as int]->0 is MultiCut
                    ||| slot_specs(self.entries())[s as int]->0 is TwoD
                },
            },
    {
        match &self.slots[s] {
            Some(e) => match &e.condition {
                Condition::True(_) => Step::Const(true),
                Condition::False(_) => Step::Const(false),
                Condition::Not(n) => Step::NotOf(n.dependent),
                Condition::And(a) => Step::AndOf(a.dependent_conditions()),
                Condition::Or(o) => Step::OrOf(o.dependent_conditions()),
                _ => Step::Leaf,
            },
            None => Step::Leaf,
        }
    }

    fn leaf_value(&self, s: usize, event: &FlatEvent, twod: &Vec<bool>) -> (r: bool)
        requires
            live(slot_specs(self.entries()), s as int),
        ensures
            match slot_specs(self.entries())[s as int]->0 {
                CondSpec::Cut(id, low, high) => r == cut_holds(*event, id, low, high),
                CondSpec::MultiCut(ps, low, high) => r == multicut_holds(*event, ps, low, high),
                CondSpec::TwoD => r == (s < twod@.len() && twod@[s as int]),
                _ => true,
            },
    {
        match &self.slots[s] {
            Some(e) => match &e.condition {
                Condition::Cut(c) => {
                    let mut copy = c.duplicate();
                    copy.evaluate(event)
                },
                Condition::MultiCut(m) => {
                    let mut copy = m.duplicate();
                    copy.evaluate(event)
                },
                Condition::Band(_) => s < twod.len() && twod[s],
                Condition::Contour(_) => s < twod.len() && twod[s],
                Condition::MultiContour(_) => s < twod.len() && twod[s],
                _ => false,
            },
            None => false,
        }
    }

    fn check_slot(&mut self, s: usize, event: &FlatEvent, twod: &Vec<bool>, Ghost(fuel): Ghost<nat>) -> (r: bool)
        requires
            old(self).wf(),
            eval(slot_specs(old(self).entries()), slot_caches(old(self).entries()), *event, twod@, s as int, fuel) is Some,
        ensures
            final(self).wf(),
            same_conditions(old(self).entries(), final(self).entries()),
            results_kept(old(self).entries(), final(self).entries(), *event, twod@),
            r == eval(slot_specs(old(self).entries()), slot_caches(old(self).entries()), *event, twod@, s as int, fuel)->0,
            slot_caches(final(self).entries())[s as int] == caching_result(old(self).entries(), s as int, r),
            forall|u: int|
                0 <= u < old(self).entries().len() && #[trigger] slot_caches(old(self).entries())[u] is Some
                    ==> slot_caches(final(self).entries())[u] == slot_caches(old(self).entries())[u],
            forall|u: int|
                0 <= u < old(self).entries().len() && #[trigger] slot_caches(final(self).entries())[u] != slot_caches(
                    old(self).entries(),
                )[u] ==> reaches(
                    slot_specs(old(self).entries()),
                    slot_caches(old(self).entries()),
                    *event,
                    twod@,
                    u,
                    s as int,
                    fuel,
                ),
        decreases fuel,
    {
        let ghost specs = slot_specs(self.entries());
        let ghost c0 = slot_caches(self.entries());
        let ghost n = self.entries().len();
        if let Some(b) = self.get_cached_value(s) {
            return b;
        }
        let step = self.step_of(s);
        let r = match step {
            Step::Const(b) => b,
            Step::NotOf(d) => {
                if self.is_live(d) {
                    let b = self.check_slot(d, event, twod, Ghost((fuel - 1) as nat));
                    !b
                } else {
                    false
                }
            },
            Step::AndOf(ds) => {
                let mut result = true;
                let mut k: usize = 0;
                while k < ds.len() && result
                    invariant
                        self.wf(),
                        same_conditions(old(self).entries(), self.entries()),
                        results_kept(old(self).entries(), self.entries(), *event, twod@),
                        specs == slot_specs(old(self).entries()),
                        c0 == slot_caches(old(self).entries()),
                        n == old(self).entries().len(),
                        live(specs, s as int),
                        !(s < c0.len() && c0[s as int] is Some),
                        specs[s as int]->0 == CondSpec::And(ds@),
                        fuel > 0,
                        k <= ds@.len(),
                        eval(specs, c0, *event, twod@, s as int, fuel) == if result {
                            and_from(specs, c0, *event, twod@, ds@, k as int, (fuel - 1) as nat)
                        } else {
                            Some(false)
                        },
                        eval(specs, c0, *event, twod@, s as int, fuel) is Some,
                        result ==> forall|j: int|
                            0 <= j < k ==> live(specs, #[trigger] ds@[j] as int) && eval(
                                specs,
                                c0,
                                *event,
                                twod@,
                                ds@[j] as int,
                                (fuel - 1) as nat,
                            ) == Some(true),
                        forall|u: int|
                            0 <= u < n && #[trigger] c0[u] is Some ==> slot_caches(self.entries())[u] == c0[u],
                        forall|u: int|
                            0 <= u < n && #[trigger] slot_caches(self.entries())[u] != c0[u] ==> and_reaches(
                                specs,
                                c0,
                                *event,
                                twod@,
                                u,
                                ds@,
                                0,
                                (fuel - 1) as nat,
                            ),
                    decreases ds@.len() - k + (if result { 1int } else { 0int }),
                {
                    let d = ds[k];
                    if !self.is_live(d) {
                        result = false;
                    } else {
                        let ghost cur = self.entries();
                        proof {
                            assert(eval(specs, c0, *event, twod@, d as int, (fuel - 1) as nat) is Some);
                        }
                        let b = self.check_slot(d, event, twod, Ghost((fuel - 1) as nat));
                        proof {
                            lemma_kept_trans(old(self).entries(), cur, self.entries(), *event, twod@);
                            let cc = slot_caches(cur);
                            assert forall|u: int|
                                0 <= u < n && #[trigger] slot_caches(self.entries())[u] != c0[u] implies and_reaches(
                                specs,
                                c0,
                                *event,
                                twod@,
                                u,
                                ds@,
                                0,
                                (fuel - 1) as nat,
                            ) by {
                                if cc[u] == c0[u] {
                                    assert(reaches(specs, cc, *event, twod@, u, d as int, (fuel - 1) as nat));
                                    lemma_reaches_fewer(specs, c0, cc, *event, twod@, u, d as int, (fuel - 1) as nat);
                                    lemma_and_reaches_at(specs, c0, *event, twod@, u, ds@, 0, k as int, (fuel - 1) as nat);
                                }
                            }
                        }
                        if !b {
                            result = false;
                        } else {
                            k = k + 1;
                        }
                    }
                }
                result
            },
            Step::OrOf(ds) => {
                let mut result = true;
                let mut done = false;
                let mut falses: usize = 0;
                let mut k: usize = 0;
                while k < ds.len() && !done
                    invariant
                        self.wf(),
                        same_conditions(old(self).entries(), self.entries()),
                        results_kept(old(self).entries(), self.entries(), *event, twod@),
                        specs == slot_specs(old(self).entries()),
                        c0 == slot_caches(old(self).entries()),
                        n == old(self).entries().len(),
                        live(specs, s as int),
                        !(s < c0.len() && c0[s as int] is Some),
                        specs[s as int]->0 == CondSpec::Or(ds@),
                        fuel > 0,
                        k <= ds@.len(),
                        falses <= k,
                        eval(specs, c0, *event, twod@, s as int, fuel) == if done {
                            Some(true)
                        } else {
                            or_from(specs, c0, *event, twod@, ds@, k as int, falses as int, (fuel - 1) as nat)
                        },
                        eval(specs, c0, *event, twod@, s as int, fuel) is Some,
                        !done ==> forall|j: int|
                            0 <= j < k ==> !live(specs, #[trigger] ds@[j] as int) || eval(
                                specs,
                                c0,
                                *event,
                                twod@,
                                ds@[j] as int,
                                (fuel - 1) as nat,
                            ) == Some(false),
                        forall|u: int|
                            0 <= u < n && #[trigger] c0[u] is Some ==> slot_caches(self.entries())[u] == c0[u],
                        forall|u: int|
                            0 <= u < n && #[trigger] slot_caches(self.entries())[u] != c0[u] ==> or_reaches(
                                specs,
                                c0,
                                *event,
                                twod@,
                                u,
                                ds@,
                                0,
                                (fuel - 1) as nat,
                            ),
                    decreases ds@.len() - k + (if done { 0int } else { 1int }),
                {
                    let d = ds[k];
                    if self.is_live(d) {
                        let ghost cur = self.entries();
                        proof {
                            assert(eval(specs, c0, *event, twod@, d as int, (fuel - 1) as nat) is Some);
                        }
                        let b = self.check_slot(d, event, twod, Ghost((fuel - 1) as nat));
                        proof {
                            lemma_kept_trans(old(self).entries(), cur, self.entries(), *event, twod@);
                            let cc = slot_caches(cur);
                            assert forall|u: int|
                                0 <= u < n && #[trigger] slot_caches(self.entries())[u] != c0[u] implies or_reaches(
                                specs,
                                c0,
                                *event,
                                twod@,
                                u,
                                ds@,
                                0,
                                (fuel - 1) as nat,
                            ) by {
                                if cc[u] == c0[u] {
                                    assert(reaches(specs, cc, *event, twod@, u, d as int, (fuel - 1) as nat));
                                    lemma_reaches_fewer(specs, c0, cc, *event, twod@, u, d as int, (fuel - 1) as nat);
                                    lemma_or_reaches_at(specs, c0, *event, twod@, u, ds@, 0, k as int, (fuel - 1) as nat);
                                }
                            }
                        }
                        if b {
                            done = true;
                        } else {
                            falses = falses + 1;
                            k = k + 1;
                        }
                    } else {
                        falses = falses + 1;
                        k = k + 1;
                    }
                }
                if done {
                    true
                } else {
                    !(falses == ds.len() && ds.len() > 0)
                }
            },
            Step::Leaf => self.leaf_value(s, event, twod),
        };
        let ghost mid = self.entries();
        self.set_cache(s, Some(r));
        proof {
            let cm = slot_caches(mid);
            assert(eval(specs, cm, *event, twod@, s as int, fuel) == Some(r));
            if entry_cond(mid[s as int]) is True || entry_cond(mid[s as int]) is False {
                assert(slot_caches(self.entries()) =~= cm);
            } else {
                assert(slot_caches(self.entries()) =~= cm.update(s as int, Some(r)));
                assert forall|t: int, f: nat| #[trigger] eval(slot_specs(mid), cm, *event, twod@, t, f) is Some implies eval(
                    slot_specs(self.entries()),
                    slot_caches(self.entries()),
                    *event,
                    twod@,
                    t,
                    f,
                ) == eval(slot_specs(mid), cm, *event, twod@, t, f) by {
                    lemma_cache_update(specs, cm, *event, twod@, s as int, fuel, t, f);
                }
            }
            assert(results_kept(mid, self.entries(), *event, twod@));
            lemma_kept_trans(old(self).entries(), mid, self.entries(), *event, twod@);
        }
        r
    }

    /// Checks the condition in slot `s` for `event`: its cached result if
    /// it has one, else its value, computed with the cached results of its
    /// dependents and cached in turn.  `twod[t]` is the outcome of the
    /// two-dimensional test of slot `t` for this event (false past the end
    /// of `twod`).  Checking changes no result that a check gives (it only
    /// caches results), so after `invalidate_cache` every check gives the
    /// value of its condition.  No cached result is changed or forgotten
    /// except in the slots the check reaches: dependents after the one that
    /// settles an `And` or an `Or` keep their caches.
    pub fn check(&mut self, s: ConditionId, event: &FlatEvent, twod: &Vec<bool>) -> (r: bool)
        requires
            old(self).wf(),
            old(self).checkable(s as int, *event, twod@),
        ensures
            final(self).wf(),
            same_conditions(old(self).entries(), final(self).entries()),
            results_kept(old(self).entries(), final(self).entries(), *event, twod@),
            r == old(self).check_result(s as int, *event, twod@),
            slot_caches(final(self).entries())[s as int] == caching_result(old(self).entries(), s as int, r),
            forall|u: int|
                0 <= u < old(self).entries().len() && #[trigger] slot_caches(old(self).entries())[u] is Some
                    ==> slot_caches(final(self).entries())[u] == slot_caches(old(self).entries())[u],
            forall|u: int|
                0 <= u < old(self).entries().len() && #[trigger] slot_caches(final(self).entries())[u] != slot_caches(
                    old(self).entries(),
                )[u] ==> old(self).check_reaches(u, s as int, *event, twod@),
    {
        let ghost f = choose|f: nat|
            #[trigger] eval(slot_specs(self.entries()), slot_caches(self.entries()), *event, twod@, s as int, f) is Some;
        self.check_slot(s, event, twod, Ghost(f))
    }

    /// Forgets every cached result (done before each event).
    pub fn invalidate_cache(&mut self)
        requires
            old(self).wf(),
        ensures
            final(self).wf(),
            same_conditions(old(self).entries(), final(self).entries()),
            forall|i: int| 0 <= i < final(self).entries().len() ==> #[trigger] slot_caches(final(self).entries())[i] is None,
    {
        let mut i: usize = 0;
        while i < self.slots.len()
            invariant
                self.wf(),
                i <= self.entries().len(),
                same_conditions(old(self).entries(), self.entries()),
                forall|j: int| 0 <= j < i ==> #[trigger] slot_caches(self.entries())[j] is None,
            decreases self.entries().len() - i,
        {
            let ghost before = self.entries();
            self.set_cache(i, None);
            proof {
                assert forall|j: int| 0 <= j < i + 1 implies #[trigger] slot_caches(self.entries())[j] is None by {
                    if j < i {
                        assert(slot_caches(before)[j] is None);
                    }
                }
            }
            i = i + 1;
        }
    }

    /// The names of the conditions, in slot order.
    pub fn names(&self) -> (r: Vec<String>)
        ensures
            forall|n: Seq<char>| #[trigger] has_named(self.entries(), n) <==> string_listed(r@, n),
    {
        let mut v: Vec<String> = Vec::new();
        let mut i: usize = 0;
        while i < self.slots.len()
            invariant
                i <= self.slots@.len(),
                forall|n: Seq<char>| #[trigger] named_before(self.entries(), n, i as int) <==> string_listed(v@, n),
            decreases self.slots@.len() - i,
        {
            let ghost old_v = v@;
            proof {
                assert(self.entries()[i as int] == match self.slots@[i as int] {
                    Some(e) => Some((e.name@, e.condition)),
                    None => None::<(Seq<char>, Condition)>,
                });
            }
            match &self.slots[i] {
                Some(e) => {
                    v.push(e.name.clone());
                    proof {
                        assert(v@.len() == old_v.len() + 1);
                        assert(v@[old_v.len() as int]@ == e.name@);
                        assert(forall|k: int| 0 <= k < old_v.len() ==> v@[k] == old_v[k]);
                        assert(self.entries()[i as int] == Some((e.name@, e.condition)));
                        assert forall|n: Seq<char>| #[trigger] named_before(self.entries(), n, i + 1) implies string_listed(
                            v@,
                            n,
                        ) by {
                            let j = choose|j: int| 0 <= j < i + 1 && #[trigger] named(self.entries(), n, j);
                            if j == i {
                                assert(v@[old_v.len() as int]@ == n);
                            } else {
                                assert(named_before(self.entries(), n, i as int));
                                assert(string_listed(old_v, n));
                                let k = choose|k: int| 0 <= k < old_v.len() && #[trigger] old_v[k]@ == n;
                                assert(v@[k]@ == n);
                            }
                        }
                        assert forall|n: Seq<char>| string_listed(v@, n) implies #[trigger] named_before(
                            self.entries(),
                            n,
                            i + 1,
                        ) by {
                            let k = choose|k: int| 0 <= k < v@.len() && #[trigger] v@[k]@ == n;
                            if k == old_v.len() {
                                assert(named(self.entries(), n, i as int));
                            } else {
                                assert(old_v[k]@ == n);
                                assert(string_listed(old_v, n));
                                assert(named_before(self.entries(), n, i as int));
                                let j = choose|j: int| 0 <= j < i && #[trigger] named(self.entries(), n, j);
                                assert(named(self.entries(), n, j));
                            }
                        }
                    }
                },
                None => {
                    proof {
                        assert forall|n: Seq<char>| #[trigger] named_before(self.entries(), n, i + 1) <==> string_listed(
                            v@,
                            n,
                        ) by {
                            if named_before(self.entries(), n, i + 1) {
                                let j = choose|j: int| 0 <= j < i + 1 && #[trigger] named(self.entries(), n, j);
                                assert(j != i);
                                assert(named_before(self.entries(), n, i as int));
                            }
                            if string_listed(v@, n) {
                                assert(named_before(self.entries(), n, i as int));
                            }
                        }
                    }
                },
            }
            i = i + 1;
        }
        proof {
            assert forall|n: Seq<char>| #[trigger] has_named(self.entries(), n) <==> string_listed(v@, n) by {
                if has_named(self.entries(), n) {
                    let j = choose|j: int| #[trigger] named(self.entries(), n, j);
                    assert(j < i);
                    assert(named_before(self.entries(), n, i as int));
                }
                if string_listed(v@, n) {
                    assert(named_before(self.entries(), n, i as int));
                    let j = choose|j: int| 0 <= j < i && #[trigger] named(self.entries(), n, j);
                    assert(has_named(self.entries(), n));
                }
            }
        }
        v
    }
}

/// A defined result stays the same with any more fuel.
proof fn lemma_eval_mono(
    slots: Seq<Option<CondSpec>>,
    caches: Seq<Option<bool>>,
    ev: FlatEvent,
    twod: Seq<bool>,
    s: int,
    f: nat,
    g: nat,
)
    requires
        eval(slots, caches, ev, twod, s, f) is Some,
        f <= g,
    ensures
        eval(slots, caches, ev, twod, s, g) == eval(slots, caches, ev, twod, s, f),
    decreases g - f,
{
    if f < g {
        lemma_eval_fuel(slots, caches, ev, twod, s, f);
        lemma_eval_mono(slots, caches, ev, twod, s, f + 1, g);
    }
}

/// With enough fuel the value of an evaluable slot is what `eval` gives.
proof fn lemma_value_at(d: ConditionDictionary, s: int, ev: FlatEvent, twod: Seq<bool>) -> (f: nat)
    requires
        d.evaluable(s, ev, twod),
    ensures
        forall|g: nat| g >= f ==> #[trigger] eval(slot_specs(d.entries()), Seq::empty(), ev, twod, s, g) == Some(d.value(s, ev, twod)),
{
    let specs = slot_specs(d.entries());
    let f = choose|f: nat| #[trigger] eval(specs, Seq::empty(), ev, twod, s, f) is Some;
    assert forall|g: nat| g >= f implies #[trigger] eval(specs, Seq::empty(), ev, twod, s, g) == Some(d.value(s, ev, twod)) by {
        lemma_eval_mono(specs, Seq::empty(), ev, twod, s, f, g);
    }
    f
}

/// Every dependent of `ds` from `k` on is live and true for `ev`.
pub open spec fn all_live_true(d: ConditionDictionary, ds: Seq<ConditionId>, k: int, ev: FlatEvent, twod: Seq<bool>) -> bool {
    forall|j: int|
        k <= j < ds.len() ==> live(slot_specs(d.entries()), #[trigger] ds[j] as int) && d.value(ds[j] as int, ev, twod)
}

/// Every dependent of `ds` from `k` on is deleted or false for `ev`.
pub open spec fn all_dead_or_false(d: ConditionDictionary, ds: Seq<ConditionId>, k: int, ev: FlatEvent, twod: Seq<bool>) -> bool {
    forall|j: int|
        k <= j < ds.len() ==> !live(slot_specs(d.entries()), #[trigger] ds[j] as int) || !d.value(ds[j] as int, ev, twod)
}

/// Every live dependent of `ds` is evaluable for `ev`.
pub open spec fn dependents_evaluable(d: ConditionDictionary, ds: Seq<ConditionId>, ev: FlatEvent, twod: Seq<bool>) -> bool {
    forall|j: int|
        0 <= j < ds.len() && live(slot_specs(d.entries()), #[trigger] ds[j] as int) ==> d.evaluable(ds[j] as int, ev, twod)
}

proof fn lemma_and_from_value(d: ConditionDictionary, ds: Seq<ConditionId>, k: int, ev: FlatEvent, twod: Seq<bool>) -> (f: nat)
    requires
        0 <= k <= ds.len(),
        dependents_evaluable(d, ds, ev, twod),
    ensures
        forall|g: nat| g >= f ==> #[trigger] and_from(slot_specs(d.entries()), Seq::empty(), ev, twod, ds, k, g) == Some(
            all_live_true(d, ds, k, ev, twod),
        ),
    decreases ds.len() - k,
{
    let specs = slot_specs(d.entries());
    if k == ds.len() {
        0
    } else if !live(specs, ds[k] as int) {
        assert(!all_live_true(d, ds, k, ev, twod));
        0
    } else {
        let fk = lemma_value_at(d, ds[k] as int, ev, twod);
        let fr = lemma_and_from_value(d, ds, k + 1, ev, twod);
        let f = if fk <= fr { fr } else { fk };
        assert forall|g: nat| g >= f implies #[trigger] and_from(specs, Seq::empty(), ev, twod, ds, k, g) == Some(
            all_live_true(d, ds, k, ev, twod),
        ) by {
            assert(eval(specs, Seq::empty(), ev, twod, ds[k] as int, g) == Some(d.value(ds[k] as int, ev, twod)));
            assert(and_from(specs, Seq::empty(), ev, twod, ds, k + 1, g) == Some(all_live_true(d, ds, k + 1, ev, twod)));
            if d.value(ds[k] as int, ev, twod) {
                assert(all_live_true(d, ds, k, ev, twod) == all_live_true(d, ds, k + 1, ev, twod));
            } else {
                assert(!all_live_true(d, ds, k, ev, twod));
            }
        }
        f
    }
}

proof fn lemma_or_from_value(
    d: ConditionDictionary,
    ds: Seq<ConditionId>,
    k: int,
    falses: int,
    ev: FlatEvent,
    twod: Seq<bool>,
) -> (f: nat)
    requires
        0 <= falses <= k <= ds.len(),
        dependents_evaluable(d, ds, ev, twod),
    ensures
        forall|g: nat| g >= f ==> #[trigger] or_from(slot_specs(d.entries()), Seq::empty(), ev, twod, ds, k, falses, g) == Some(
            !(falses == k && ds.len() > 0 && all_dead_or_false(d, ds, k, ev, twod)),
        ),
    decreases ds.len() - k,
{
    let specs = slot_specs(d.entries());
    if k == ds.len() {
        assert(all_dead_or_false(d, ds, k, ev, twod));
        assert forall|g: nat| g >= 0 implies #[trigger] or_from(specs, Seq::empty(), ev, twod, ds, k, falses, g) == Some(
            !(falses == k && ds.len() > 0 && all_dead_or_false(d, ds, k, ev, twod)),
        ) by {}
        0
    } else if !live(specs, ds[k] as int) {
        let fr = lemma_or_from_value(d, ds, k + 1, falses + 1, ev, twod);
        assert(all_dead_or_false(d, ds, k, ev, twod) == all_dead_or_false(d, ds, k + 1, ev, twod));
        assert forall|g: nat| g >= fr implies #[trigger] or_from(specs, Seq::empty(), ev, twod, ds, k, falses, g) == Some(
            !(falses == k && ds.len() > 0 && all_dead_or_false(d, ds, k, ev, twod)),
        ) by {
            assert(or_from(specs, Seq::empty(), ev, twod, ds, k + 1, falses + 1, g) == Some(
                !(falses + 1 == k + 1 && ds.len() > 0 && all_dead_or_false(d, ds, k + 1, ev, twod)),
            ));
        }
        fr
    } else {
        let fk = lemma_value_at(d, ds[k] as int, ev, twod);
        let fr = lemma_or_from_value(d, ds, k + 1, falses + 1, ev, twod);
        let f = if fk <= fr { fr } else { fk };
        assert forall|g: nat| g >= f implies #[trigger] or_from(specs, Seq::empty(), ev, twod, ds, k, falses, g) == Some(
            !(falses == k && ds.len() > 0 && all_dead_or_false(d, ds, k, ev, twod)),
        ) by {
            assert(eval(specs, Seq::empty(), ev, twod, ds[k] as int, g) == Some(d.value(ds[k] as int, ev, twod)));
            assert(or_from(specs, Seq::empty(), ev, twod, ds, k + 1, falses + 1, g) == Some(
                !(falses + 1 == k + 1 && ds.len() > 0 && all_dead_or_false(d, ds, k + 1, ev, twod)),
            ));
            if d.value(ds[k] as int, ev, twod) {
                assert(!all_dead_or_false(d, ds, k, ev, twod));
            } else {
                assert(all_dead_or_false(d, ds, k, ev, twod) == all_dead_or_false(d, ds, k + 1, ev, twod));
            }
        }
        f
    }
}

/// A `Not` condition is the negation of its dependent; once the dependent
/// is deleted it is false.
pub proof fn law_not_negates(d: ConditionDictionary, s: int, dep: ConditionId, ev: FlatEvent, twod: Seq<bool>)
    requires
        0 <= s < slot_specs(d.entries()).len(),
        slot_specs(d.entries())[s] == Some(CondSpec::Not(dep)),
        live(slot_specs(d.entries()), dep as int) ==> d.evaluable(dep as int, ev, twod),
    ensures
        d.evaluable(s, ev, twod),
        d.value(s, ev, twod) == (live(slot_specs(d.entries()), dep as int) && !d.value(dep as int, ev, twod)),
{
    let specs = slot_specs(d.entries());
    if live(specs, dep as int) {
        let f = lemma_value_at(d, dep as int, ev, twod);
        assert(eval(specs, Seq::empty(), ev, twod, dep as int, f) == Some(d.value(dep as int, ev, twod)));
        assert(eval(specs, Seq::empty(), ev, twod, s, f + 1) == Some(!d.value(dep as int, ev, twod)));
        let fs = lemma_value_at(d, s, ev, twod);
        let big = if fs <= f + 1 { (f + 1) as nat } else { fs };
        lemma_eval_mono(specs, Seq::empty(), ev, twod, s, f + 1, big);
    } else {
        assert(eval(specs, Seq::empty(), ev, twod, s, 1) == Some(false));
        let fs = lemma_value_at(d, s, ev, twod);
        let big = if fs <= 1 { 1nat } else { fs };
        lemma_eval_mono(specs, Seq::empty(), ev, twod, s, 1, big);
    }
}

/// An `And` condition is true exactly when every dependent is live and
/// true (so an `And` of nothing is true, and one with a deleted dependent
/// is false).
pub proof fn law_and_all(d: ConditionDictionary, s: int, ds: Seq<ConditionId>, ev: FlatEvent, twod: Seq<bool>)
    requires
        0 <= s < slot_specs(d.entries()).len(),
        slot_specs(d.entries())[s] == Some(CondSpec::And(ds)),
        dependents_evaluable(d, ds, ev, twod),
    ensures
        d.evaluable(s, ev, twod),
        d.value(s, ev, twod) == all_live_true(d, ds, 0, ev, twod),
{
    let specs = slot_specs(d.entries());
    let f = lemma_and_from_value(d, ds, 0, ev, twod);
    assert(and_from(specs, Seq::empty(), ev, twod, ds, 0, f) == Some(all_live_true(d, ds, 0, ev, twod)));
    assert(eval(specs, Seq::empty(), ev, twod, s, f + 1) == Some(all_live_true(d, ds, 0, ev, twod)));
    let fs = lemma_value_at(d, s, ev, twod);
    let big = if fs <= f + 1 { (f + 1) as nat } else { fs };
    lemma_eval_mono(specs, Seq::empty(), ev, twod, s, f + 1, big);
}

/// An `Or` condition is false exactly when it has dependents and every one
/// of them is false or deleted (a deleted dependent counts as false): it
/// holds when some live dependent holds, and an `Or` of nothing is true.
pub proof fn law_or_any(d: ConditionDictionary, s: int, ds: Seq<ConditionId>, ev: FlatEvent, twod: Seq<bool>)
    requires
        0 <= s < slot_specs(d.entries()).len(),
        slot_specs(d.entries())[s] == Some(CondSpec::Or(ds)),
        dependents_evaluable(d, ds, ev, twod),
    ensures
        d.evaluable(s, ev, twod),
        d.value(s, ev, twod) == !(ds.len() > 0 && all_dead_or_false(d, ds, 0, ev, twod)),
{
    let specs = slot_specs(d.entries());
    let f = lemma_or_from_value(d, ds, 0, 0, ev, twod);
    assert(or_from(specs, Seq::empty(), ev, twod, ds, 0, 0, f) == Some(!(ds.len() > 0 && all_dead_or_false(d, ds, 0, ev, twod))));
    assert(eval(specs, Seq::empty(), ev, twod, s, f + 1) == Some(!(ds.len() > 0 && all_dead_or_false(d, ds, 0, ev, twod))));
    let fs = lemma_value_at(d, s, ev, twod);
    let big = if fs <= f + 1 { (f + 1) as nat } else { fs };
    lemma_eval_mono(specs, Seq::empty(), ev, twod, s, f + 1, big);
}

/// Caching never changes what a condition evaluates to: two dictionaries
/// that differ only in cached results give every condition the same value
/// (so checking a condition twice for one event gives one answer).
pub proof fn law_cache_keeps_values(a: ConditionDictionary, b: ConditionDictionary, s: int, ev: FlatEvent, twod: Seq<bool>)
    requires
        same_conditions(a.entries(), b.entries()),
    ensures
        a.evaluable(s, ev, twod) == b.evaluable(s, ev, twod),
        a.value(s, ev, twod) == b.value(s, ev, twod),
{
}

/// Two checks of one condition for one event give one answer: the second
/// (made after the first, or after any checks in between, which only
/// cache results) gives what the first gave.
pub proof fn law_checks_keep_results(
    a: ConditionDictionary,
    b: ConditionDictionary,
    s: int,
    ev: FlatEvent,
    twod: Seq<bool>,
)
    requires
        results_kept(a.entries(), b.entries(), ev, twod),
        a.checkable(s, ev, twod),
    ensures
        b.checkable(s, ev, twod),
        b.check_result(s, ev, twod) == a.check_result(s, ev, twod),
{
    let fa = choose|f: nat| #[trigger] eval(slot_specs(a.entries()), slot_caches(a.entries()), ev, twod, s, f) is Some;
    assert(eval(slot_specs(b.entries()), slot_caches(b.entries()), ev, twod, s, fa) is Some);
    let fb = choose|f: nat| #[trigger] eval(slot_specs(b.entries()), slot_caches(b.entries()), ev, twod, s, f) is Some;
    lemma_eval_agree(slot_specs(b.entries()), slot_caches(b.entries()), ev, twod, s, fa, fb);
}

/// With every cached result forgotten (as `invalidate_cache` leaves them),
/// checking a condition gives its value, and so do the checks that follow
/// for the same event, whatever they cache.
pub proof fn law_checks_after_invalidate_give_values(
    a: ConditionDictionary,
    b: ConditionDictionary,
    s: int,
    ev: FlatEvent,
    twod: Seq<bool>,
)
    requires
        forall|i: int| 0 <= i < a.entries().len() ==> #[trigger] slot_caches(a.entries())[i] is None,
        results_kept(a.entries(), b.entries(), ev, twod),
        a.evaluable(s, ev, twod),
    ensures
        a.checkable(s, ev, twod),
        b.checkable(s, ev, twod),
        b.check_result(s, ev, twod) == a.value(s, ev, twod),
{
    let specs = slot_specs(a.entries());
    let ca = slot_caches(a.entries());
    let f = choose|f: nat| #[trigger] eval(specs, Seq::empty(), ev, twod, s, f) is Some;
    lemma_no_caches(specs, ca, ev, twod, s, f);
    assert(eval(specs, ca, ev, twod, s, f) is Some);
    let fa = choose|f: nat| #[trigger] eval(specs, ca, ev, twod, s, f) is Some;
    lemma_eval_agree(specs, ca, ev, twod, s, f, fa);
    law_checks_keep_results(a, b, s, ev, twod);
}

} // verus!
