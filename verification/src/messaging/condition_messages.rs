//! Requests and replies of the condition part of the histogrammer and the
//! processor that serves them with a condition dictionary.
use vstd::prelude::*;
use crate::conditions::{
    And,
    Condition,
    ConditionDictionary,
    ConditionId,
    False,
    Not,
    Or,
    True,
    entry_cond,
    entry_name,
    has_named,
    named,
};
use crate::conditions::cut::{Cut, MultiCut};
use crate::conditions::twod::{Band, Contour, MultiContour, Point, point_pairs};
use crate::glob_pattern::{GlobPattern, glob_compile_error, glob_matches};
use crate::messaging::{MessageType, Reply, Request, clone_sender, new_channel};
use crate::messaging::parameter_messages::transport_error;
use std::sync::mpsc::Sender;

verus! {

/// A request of the condition part of the histogrammer.  Values and points
/// are bit patterns of binary64 numbers.
#[derive(Clone, Debug, PartialEq)]
pub enum ConditionRequest {
    CreateTrue(String),
    CreateFalse(String),
    CreateNot { name: String, dependent: String },
    CreateAnd { name: String, dependents: Vec<String> },
    CreateOr { name: String, dependents: Vec<String> },
    CreateCut { name: String, param_id: u32, low: u64, high: u64 },
    CreateBand { name: String, x_id: u32, y_id: u32, points: Vec<(u64, u64)> },
    CreateContour { name: String, x_id: u32, y_id: u32, points: Vec<(u64, u64)> },
    CreateMultiCut { name: String, ids: Vec<u32>, low: u64, high: u64 },
    CreateMultiContour { name: String, ids: Vec<u32>, points: Vec<(u64, u64)> },
    DeleteCondition(String),
    List(String),
}

/// The description of a condition in a listing.
#[derive(Clone, Debug, PartialEq)]
pub struct ConditionProperties {
    pub cond_name: String,
    pub cond_type: String,
    pub points: Vec<(u64, u64)>,
    pub gates: Vec<String>,
    pub parameters: Vec<u32>,
}

/// A reply of the condition part of the histogrammer.
#[derive(Clone, Debug, PartialEq)]
pub enum ConditionReply {
    Error(String),
    Created,
    Replaced,
    Deleted,
    Listing(Vec<ConditionProperties>),
}

/// `new` is `old` with the condition `c` stored under `name`: in the slot of
/// that name if there is one, else in a new slot.
pub open spec fn placed(
    old: Seq<Option<(Seq<char>, Condition)>>,
    new: Seq<Option<(Seq<char>, Condition)>>,
    name: Seq<char>,
    c: Condition,
) -> bool {
    if has_named(old, name) {
        exists|s: int| named(old, name, s) && new == old.update(s, Some((name, c)))
    } else {
        new == old.push(Some((name, c)))
    }
}

/// The reply to a successful creation.
pub open spec fn creation_reply(old: Seq<Option<(Seq<char>, Condition)>>, name: Seq<char>, r: ConditionReply) -> bool {
    if has_named(old, name) {
        r is Replaced
    } else {
        r is Created
    }
}

/// The name a listing gives a dependent condition: its name, or
/// `-deleted-` for an emptied slot.
pub open spec fn dependent_name(entries: Seq<Option<(Seq<char>, Condition)>>, s: ConditionId) -> Seq<char> {
    if 0 <= s < entries.len() && entries[s as int] is Some {
        entry_name(entries[s as int])
    } else {
        "-deleted-"@
    }
}

/// `props` describes the condition named `name` in slot `s`.
pub open spec fn describes(
    entries: Seq<Option<(Seq<char>, Condition)>>,
    s: int,
    props: ConditionProperties,
) -> bool {
    let c = entry_cond(entries[s]);
    &&& props.cond_name@ == entry_name(entries[s])
    &&& props.cond_type@ == c.spec_type_name()
    &&& props.points@ == c.spec_points()
    &&& props.parameters@ == c.spec_dependent_parameters()
    &&& props.gates@.len() == c.spec_dependent_conditions().len()
    &&& forall|k: int|
        0 <= k < props.gates@.len() ==> #[trigger] props.gates@[k]@ == dependent_name(
            entries,
            c.spec_dependent_conditions()[k],
        )
}

/// The live slots below `n` whose names match `pattern`, in order.
pub open spec fn matching_slots(entries: Seq<Option<(Seq<char>, Condition)>>, pattern: Seq<char>, n: int) -> Seq<int>
    decreases n,
{
    if n <= 0 {
        Seq::empty()
    } else {
        let rest = matching_slots(entries, pattern, n - 1);
        if n - 1 < entries.len() && entries[n - 1] is Some && glob_matches(pattern, entry_name(entries[n - 1])) {
            rest.push(n - 1)
        } else {
            rest
        }
    }
}

/// The slots of the names in `names`, each of which is defined.
pub open spec fn slots_of(entries: Seq<Option<(Seq<char>, Condition)>>, names: Seq<String>, slots: Seq<ConditionId>) -> bool {
    &&& slots.len() == names.len()
    &&& forall|k: int| 0 <= k < names.len() ==> #[trigger] named(entries, names[k]@, slots[k] as int)
}

/// Every name of `names` is defined.
pub open spec fn all_defined(entries: Seq<Option<(Seq<char>, Condition)>>, names: Seq<String>) -> bool {
    forall|k: int| 0 <= k < names.len() ==> #[trigger] has_named(entries, names[k]@)
}

/// What serving `req` does: `old_p` becomes `new_p` and the answer is
/// `reply`.
pub open spec fn condition_request_served(
    old_p: ConditionProcessor,
    req: ConditionRequest,
    new_p: ConditionProcessor,
    reply: ConditionReply,
) -> bool {
    match req {
        ConditionRequest::CreateTrue(name) => placed(
            old_p.spec_dict().entries(),
            new_p.spec_dict().entries(),
            name@,
            Condition::True(True {}),
        ) && creation_reply(old_p.spec_dict().entries(), name@, reply),
        ConditionRequest::CreateFalse(name) => placed(
            old_p.spec_dict().entries(),
            new_p.spec_dict().entries(),
            name@,
            Condition::False(False {}),
        ) && creation_reply(old_p.spec_dict().entries(), name@, reply),
        ConditionRequest::CreateNot { name, dependent } => {
            &&& !has_named(old_p.spec_dict().entries(), dependent@) ==> reply is Error
                && new_p.spec_dict() == old_p.spec_dict()
            &&& has_named(old_p.spec_dict().entries(), dependent@) ==> exists|d: int, n: Not|
                named(old_p.spec_dict().entries(), dependent@, d) && n.spec_dependent() == d
                    && n.spec_cache() is None && placed(
                    old_p.spec_dict().entries(),
                    new_p.spec_dict().entries(),
                    name@,
                    Condition::Not(n),
                ) && creation_reply(old_p.spec_dict().entries(), name@, reply)
        },
        ConditionRequest::CreateAnd { name, dependents } => {
            &&& !all_defined(old_p.spec_dict().entries(), dependents@) ==> reply is Error
                && new_p.spec_dict() == old_p.spec_dict()
            &&& all_defined(old_p.spec_dict().entries(), dependents@) ==> exists|a: And|
                slots_of(old_p.spec_dict().entries(), dependents@, a.spec_dependents())
                    && a.spec_cache() is None && placed(
                    old_p.spec_dict().entries(),
                    new_p.spec_dict().entries(),
                    name@,
                    Condition::And(a),
                ) && creation_reply(old_p.spec_dict().entries(), name@, reply)
        },
        ConditionRequest::CreateOr { name, dependents } => {
            &&& !all_defined(old_p.spec_dict().entries(), dependents@) ==> reply is Error
                && new_p.spec_dict() == old_p.spec_dict()
            &&& all_defined(old_p.spec_dict().entries(), dependents@) ==> exists|o: Or|
                slots_of(old_p.spec_dict().entries(), dependents@, o.spec_dependents())
                    && o.spec_cache() is None && placed(
                    old_p.spec_dict().entries(),
                    new_p.spec_dict().entries(),
                    name@,
                    Condition::Or(o),
                ) && creation_reply(old_p.spec_dict().entries(), name@, reply)
        },
        ConditionRequest::CreateCut { name, param_id, low, high } => exists|c: Cut|
            c.spec_parameter() == param_id && c.spec_low() == low && c.spec_high() == high
                && c.spec_cache() is None && placed(
                old_p.spec_dict().entries(),
                new_p.spec_dict().entries(),
                name@,
                Condition::Cut(c),
            ) && creation_reply(old_p.spec_dict().entries(), name@, reply),
        ConditionRequest::CreateBand { name, x_id, y_id, points } => {
            &&& points@.len() < 2 ==> reply is Error && new_p.spec_dict() == old_p.spec_dict()
            &&& points@.len() >= 2 ==> exists|b: Band|
                b.spec_parameters() == (x_id, y_id) && point_pairs(b.spec_points()) == points@
                    && b.spec_cache() is None && placed(
                    old_p.spec_dict().entries(),
                    new_p.spec_dict().entries(),
                    name@,
                    Condition::Band(b),
                ) && creation_reply(old_p.spec_dict().entries(), name@, reply)
        },
        ConditionRequest::CreateContour { name, x_id, y_id, points } => {
            &&& points@.len() < 3 ==> reply is Error && new_p.spec_dict() == old_p.spec_dict()
            &&& points@.len() >= 3 ==> exists|c: Contour|
                c.spec_parameters() == (x_id, y_id) && point_pairs(c.spec_points()) == points@
                    && c.spec_cache() is None && placed(
                    old_p.spec_dict().entries(),
                    new_p.spec_dict().entries(),
                    name@,
                    Condition::Contour(c),
                ) && creation_reply(old_p.spec_dict().entries(), name@, reply)
        },
        ConditionRequest::CreateMultiCut { name, ids, low, high } => exists|m: MultiCut|
            m.spec_parameters() == ids@ && m.spec_low() == low && m.spec_high() == high
                && m.spec_cache() is None && placed(
                old_p.spec_dict().entries(),
                new_p.spec_dict().entries(),
                name@,
                Condition::MultiCut(m),
            ) && creation_reply(old_p.spec_dict().entries(), name@, reply),
        ConditionRequest::CreateMultiContour { name, ids, points } => {
            &&& points@.len() < 3 ==> reply is Error && new_p.spec_dict() == old_p.spec_dict()
            &&& points@.len() >= 3 ==> exists|m: MultiContour|
                m.spec_parameters() == ids@ && point_pairs(m.spec_points()) == points@
                    && m.spec_cache() is None && placed(
                    old_p.spec_dict().entries(),
                    new_p.spec_dict().entries(),
                    name@,
                    Condition::MultiContour(m),
                ) && creation_reply(old_p.spec_dict().entries(), name@, reply)
        },
        ConditionRequest::DeleteCondition(name) => {
            &&& !has_named(old_p.spec_dict().entries(), name@) ==> reply is Error
                && new_p.spec_dict().entries() == old_p.spec_dict().entries()
            &&& has_named(old_p.spec_dict().entries(), name@) ==> reply is Deleted && exists|s: int|
                named(old_p.spec_dict().entries(), name@, s) && new_p.spec_dict().entries()
                    == old_p.spec_dict().entries().update(s, None)
        },
        ConditionRequest::List(pattern) => {
            &&& new_p.spec_dict() == old_p.spec_dict()
            &&& glob_compile_error(pattern@) matches Some(m) ==> (reply matches ConditionReply::Error(e) && e@ == m)
            &&& glob_compile_error(pattern@) is None ==> (reply matches ConditionReply::Listing(v) && {
                let slots = matching_slots(
                    old_p.spec_dict().entries(),
                    pattern@,
                    old_p.spec_dict().entries().len() as int,
                );
                &&& v@.len() == slots.len()
                &&& forall|k: int|
                    0 <= k < v@.len() ==> #[trigger] describes(old_p.spec_dict().entries(), slots[k], v@[k])
            })
        },
    }
}

/// The processor of condition requests: it owns the condition dictionary.
pub struct ConditionProcessor {
    dict: ConditionDictionary,
}

impl ConditionProcessor {
    /// The dictionary.
    pub closed spec fn spec_dict(&self) -> ConditionDictionary {
        self.dict
    }

    /// The dictionary is well formed.
    pub open spec fn wf(&self) -> bool {
        self.spec_dict().wf()
    }

    /// A processor with an empty dictionary.
    pub fn new() -> (r: ConditionProcessor)
        ensures
            r.wf(),
            r.spec_dict().entries() == Seq::<Option<(Seq<char>, Condition)>>::empty(),
    {
        ConditionProcessor { dict: ConditionDictionary::new() }
    }

    /// The dictionary.
    pub fn get_dict(&self) -> (r: &ConditionDictionary)
        ensures
            *r == self.spec_dict(),
    {
        &self.dict
    }

    /// The dictionary, e.g. to evaluate conditions.
    pub fn get_dict_mut(&mut self) -> (r: &mut ConditionDictionary)
        ensures
            *r == old(self).spec_dict(),
            final(self).spec_dict() == *final(r),
    {
        &mut self.dict
    }

    fn add_condition(&mut self, name: &str, cond: Condition) -> (r: ConditionReply)
        requires
            old(self).wf(),
        ensures
            final(self).wf(),
            placed(old(self).spec_dict().entries(), final(self).spec_dict().entries(), name@, cond),
            creation_reply(old(self).spec_dict().entries(), name@, r),
    {
        if self.dict.insert(name, cond) {
            ConditionReply::Replaced
        } else {
            ConditionReply::Created
        }
    }

    fn dependent_error(name: &str) -> (r: ConditionReply)
        ensures
            r matches ConditionReply::Error(e) && e@ == "Dependent condition "@ + name@ + " not found"@,
    {
        proof {
            reveal_strlit("Dependent condition ");
            reveal_strlit(" not found");
        }
        ConditionReply::Error(String::from_str("Dependent condition ").concat(name).concat(" not found"))
    }

    fn add_not(&mut self, name: &str, dependent: &str) -> (r: ConditionReply)
        requires
            old(self).wf(),
        ensures
            final(self).wf(),
            !has_named(old(self).spec_dict().entries(), dependent@) ==> {
                &&& r matches ConditionReply::Error(e) && e@ == "Dependent condition "@ + dependent@ + " not found"@
                &&& final(self).spec_dict() == old(self).spec_dict()
            },
            has_named(old(self).spec_dict().entries(), dependent@) ==> exists|d: int, n: Not|
                named(old(self).spec_dict().entries(), dependent@, d) && n.spec_dependent() == d && n.spec_cache()
                    is None && placed(
                    old(self).spec_dict().entries(),
                    final(self).spec_dict().entries(),
                    name@,
                    Condition::Not(n),
                ) && creation_reply(old(self).spec_dict().entries(), name@, r),
    {
        match self.dict.get(dependent) {
            Some(d) => {
                let n = Not::new(d);
                self.add_condition(name, Condition::Not(n))
            },
            None => Self::dependent_error(dependent),
        }
    }

    fn resolve(&self, names: &Vec<String>) -> (r: Option<Vec<ConditionId>>)
        ensures
            r is Some <==> all_defined(self.spec_dict().entries(), names@),
            r matches Some(v) ==> slots_of(self.spec_dict().entries(), names@, v@),
    {
        let mut v: Vec<ConditionId> = Vec::new();
        let mut i: usize = 0;
        while i < names.len()
            invariant
                i <= names@.len(),
                slots_of(self.spec_dict().entries(), names@.take(i as int), v@),
                all_defined(self.spec_dict().entries(), names@.take(i as int)),
            decreases names@.len() - i,
        {
            match self.dict.get(names[i].as_str()) {
                Some(s) => {
                    v.push(s);
                    proof {
                        assert forall|k: int| 0 <= k < i + 1 implies #[trigger] named(
                            self.spec_dict().entries(),
                            names@.take(i as int + 1)[k]@,
                            v@[k] as int,
                        ) by {
                            if k < i {
                                assert(names@.take(i as int)[k] == names@.take(i as int + 1)[k]);
                            }
                        }
                        assert forall|k: int| 0 <= k < i + 1 implies #[trigger] has_named(
                            self.spec_dict().entries(),
                            names@.take(i as int + 1)[k]@,
                        ) by {
                            if k < i {
                                assert(names@.take(i as int)[k] == names@.take(i as int + 1)[k]);
                            } else {
                                assert(named(self.spec_dict().entries(), names@[k]@, s as int));
                            }
                        }
                    }
                },
                None => {
                    proof {
                        assert(!all_defined(self.spec_dict().entries(), names@)) by {
                            assert(!has_named(self.spec_dict().entries(), names@[i as int]@));
                        }
                    }
                    return None;
                },
            }
            i = i + 1;
        }
        proof {
            assert(names@.take(names@.len() as int) =~= names@);
        }
        Some(v)
    }

    /// Serves a request.
    ///
    /// Creations store the new condition under its name and answer
    /// `Replaced` when the name was taken (conditions that depended on the
    /// old one now depend on the new one) or `Created`.  A `Not`, `And` or
    /// `Or` of a name that is not defined answers an error, and so do a band
    /// with fewer than two points and a contour with fewer than three.
    /// `DeleteCondition` answers `Deleted` or an error for an unknown name.
    /// `List` answers the descriptions of the conditions whose names match
    /// the glob pattern, or the glob crate's error for a bad pattern.
    pub fn process_request(&mut self, req: ConditionRequest) -> (r: ConditionReply)
        requires
            old(self).wf(),
        ensures
            final(self).wf(),
            condition_request_served(*old(self), req, *final(self), r),
    {
        match req {
            ConditionRequest::CreateTrue(name) => self.add_condition(name.as_str(), Condition::True(True {})),
            ConditionRequest::CreateFalse(name) => self.add_condition(name.as_str(), Condition::False(False {})),
            ConditionRequest::CreateNot { name, dependent } => self.add_not(name.as_str(), dependent.as_str()),
            ConditionRequest::CreateAnd { name, dependents } => {
                match self.resolve(&dependents) {
                    Some(slots) => {
                        let mut a = And::new();
                        let mut i: usize = 0;
                        while i < slots.len()
                            invariant
                                i <= slots@.len(),
                                a.spec_dependents() == slots@.take(i as int),
                                a.spec_cache() is None,
                            decreases slots@.len() - i,
                        {
                            a.add_condition(slots[i]);
                            i = i + 1;
                            proof {
                                assert(a.spec_dependents() =~= slots@.take(i as int));
                            }
                        }
                        proof {
                            assert(slots@.take(slots@.len() as int) =~= slots@);
                        }
                        self.add_condition(name.as_str(), Condition::And(a))
                    },
                    None => Self::dependent_error(name.as_str()),
                }
            },
            ConditionRequest::CreateOr { name, dependents } => {
                match self.resolve(&dependents) {
                    Some(slots) => {
                        let mut o = Or::new();
                        let mut i: usize = 0;
                        while i < slots.len()
                            invariant
                                i <= slots@.len(),
                                o.spec_dependents() == slots@.take(i as int),
                                o.spec_cache() is None,
                            decreases slots@.len() - i,
                        {
                            o.add_condition(slots[i]);
                            i = i + 1;
                            proof {
                                assert(o.spec_dependents() =~= slots@.take(i as int));
                            }
                        }
                        proof {
                            assert(slots@.take(slots@.len() as int) =~= slots@);
                        }
                        self.add_condition(name.as_str(), Condition::Or(o))
                    },
                    None => Self::dependent_error(name.as_str()),
                }
            },
            ConditionRequest::CreateCut { name, param_id, low, high } => {
                let c = Cut::new(param_id, low, high);
                self.add_condition(name.as_str(), Condition::Cut(c))
            },
            ConditionRequest::CreateBand { name, x_id, y_id, points } => {
                match Band::new(x_id, y_id, Self::convert_points(&points)) {
                    Some(b) => self.add_condition(name.as_str(), Condition::Band(b)),
                    None => {
                        proof {
                            reveal_strlit("Too few points for  band");
                        }
                        ConditionReply::Error(String::from_str("Too few points for  band"))
                    },
                }
            },
            ConditionRequest::CreateContour { name, x_id, y_id, points } => {
                match Contour::new(x_id, y_id, Self::convert_points(&points)) {
                    Some(c) => self.add_condition(name.as_str(), Condition::Contour(c)),
                    None => {
                        proof {
                            reveal_strlit("Too few points for a contour");
                        }
                        ConditionReply::Error(String::from_str("Too few points for a contour"))
                    },
                }
            },
            ConditionRequest::CreateMultiCut { name, ids, low, high } => {
                let m = MultiCut::new(ids.as_slice(), low, high);
                self.add_condition(name.as_str(), Condition::MultiCut(m))
            },
            ConditionRequest::CreateMultiContour { name, ids, points } => {
                match MultiContour::new(ids.as_slice(), Self::convert_points(&points)) {
                    Some(m) => self.add_condition(name.as_str(), Condition::MultiContour(m)),
                    None => {
                        proof {
                            reveal_strlit("Unable to create multicontour");
                        }
                        ConditionReply::Error(String::from_str("Unable to create multicontour"))
                    },
                }
            },
            ConditionRequest::DeleteCondition(name) => {
                if self.dict.remove(name.as_str()) {
                    ConditionReply::Deleted
                } else {
                    proof {
                        reveal_strlit("No such condition ");
                    }
                    ConditionReply::Error(String::from_str("No such condition ").concat(name.as_str()))
                }
            },
            ConditionRequest::List(pattern) => self.list_conditions(pattern.as_str()),
        }
    }

    fn convert_points(points: &Vec<(u64, u64)>) -> (r: Vec<Point>)
        ensures
            point_pairs(r@) == points@,
    {
        let mut result: Vec<Point> = Vec::new();
        let mut i: usize = 0;
        while i < points.len()
            invariant
                i <= points@.len(),
                point_pairs(result@) == points@.take(i as int),
            decreases points@.len() - i,
        {
            let p = points[i];
            let ghost before = result@;
            result.push(Point::new(p.0, p.1));
            proof {
                assert(point_pairs(before) == points@.take(i as int));
                assert(point_pairs(before).len() == before.len());
                assert(before.len() == i);
                assert(result@ == before.push(Point { x: p.0, y: p.1 }));
                assert forall|k: int| 0 <= k < i + 1 implies point_pairs(result@)[k] == points@.take(i as int + 1)[k] by {
                    if k < i {
                        assert(result@[k] == before[k]);
                        assert(point_pairs(before)[k] == points@.take(i as int)[k]);
                    }
                }
                assert(point_pairs(result@) =~= points@.take(i as int + 1));
            }
            i = i + 1;
        }
        proof {
            assert(points@.take(points@.len() as int) =~= points@);
        }
        result
    }

    fn make_props(&self, s: ConditionId) -> (r: ConditionProperties)
        requires
            0 <= s < self.spec_dict().entries().len(),
            self.spec_dict().entries()[s as int] is Some,
        ensures
            describes(self.spec_dict().entries(), s as int, r),
    {
        let c = self.dict.get_condition(s).unwrap();
        let name = self.dict.condition_name(s).unwrap();
        let dependencies = c.dependent_conditions();
        let mut d_names: Vec<String> = Vec::new();
        let mut i: usize = 0;
        while i < dependencies.len()
            invariant
                i <= dependencies@.len(),
                dependencies@ == c.spec_dependent_conditions(),
                d_names@.len() == i,
                forall|k: int|
                    0 <= k < i ==> #[trigger] d_names@[k]@ == dependent_name(
                        self.spec_dict().entries(),
                        dependencies@[k],
                    ),
            decreases dependencies@.len() - i,
        {
            match self.dict.condition_name(dependencies[i]) {
                Some(n) => d_names.push(n),
                None => {
                    proof {
                        reveal_strlit("-deleted-");
                    }
                    d_names.push(String::from_str("-deleted-"));
                },
            }
            i = i + 1;
        }
        ConditionProperties {
            cond_name: name,
            cond_type: c.condition_type(),
            points: c.condition_points(),
            gates: d_names,
            parameters: c.dependent_parameters(),
        }
    }

    fn list_conditions(&self, pattern: &str) -> (r: ConditionReply)
        requires
            self.wf(),
        ensures
            glob_compile_error(pattern@) matches Some(m) ==> (r matches ConditionReply::Error(e) && e@ == m),
            glob_compile_error(pattern@) is None ==> (r matches ConditionReply::Listing(v) && {
                let slots = matching_slots(
                    self.spec_dict().entries(),
                    pattern@,
                    self.spec_dict().entries().len() as int,
                );
                &&& v@.len() == slots.len()
                &&& forall|k: int| 0 <= k < v@.len() ==> #[trigger] describes(self.spec_dict().entries(), slots[k], v@[k])
            }),
    {
        match GlobPattern::new(pattern) {
            Err(m) => ConditionReply::Error(m),
            Ok(pat) => {
                let ghost entries = self.spec_dict().entries();
                let mut props: Vec<ConditionProperties> = Vec::new();
                let n = self.dict.slot_count();
                let mut s: usize = 0;
                while s < n
                    invariant
                        s <= n,
                        n == entries.len(),
                        entries == self.spec_dict().entries(),
                        pat.spec_text() == pattern@,
                        props@.len() == matching_slots(entries, pattern@, s as int).len(),
                        forall|k: int|
                            0 <= k < props@.len() ==> #[trigger] describes(
                                entries,
                                matching_slots(entries, pattern@, s as int)[k],
                                props@[k],
                            ),
                    decreases n - s,
                {
                    let ghost before = props@;
                    match self.dict.condition_name(s) {
                        Some(name) => {
                            if pat.matches(name.as_str()) {
                                let p = self.make_props(s);
                                props.push(p);
                            }
                        },
                        None => {},
                    }
                    proof {
                        let prev = matching_slots(entries, pattern@, s as int);
                        let next = matching_slots(entries, pattern@, s as int + 1);
                        assert forall|k: int| 0 <= k < props@.len() implies #[trigger] describes(
                            entries,
                            next[k],
                            props@[k],
                        ) by {
                            if k < before.len() {
                                assert(next[k] == prev[k]);
                                assert(props@[k] == before[k]);
                            }
                        }
                    }
                    s = s + 1;
                }
                ConditionReply::Listing(props)
            },
        }
    }
}

/// A copy of the strings of `v`.
pub(crate) fn copy_strings(v: &[String]) -> (r: Vec<String>)
    ensures
        r@.len() == v@.len(),
        forall|k: int| 0 <= k < v@.len() ==> #[trigger] r@[k]@ == v@[k]@,
{
    let mut out: Vec<String> = Vec::new();
    let mut i: usize = 0;
    while i < v.len()
        invariant
            i <= v@.len(),
            out@.len() == i,
            forall|k: int| 0 <= k < i ==> #[trigger] out@[k]@ == v@[k]@,
        decreases v@.len() - i,
    {
        out.push(v[i].clone());
        i = i + 1;
    }
    out
}

fn copy_ids(v: &[u32]) -> (r: Vec<u32>)
    ensures
        r@ == v@,
{
    let mut out: Vec<u32> = Vec::new();
    let mut i: usize = 0;
    while i < v.len()
        invariant
            i <= v@.len(),
            out@ == v@.take(i as int),
        decreases v@.len() - i,
    {
        out.push(v[i]);
        i = i + 1;
        proof {
            assert(out@ =~= v@.take(i as int));
        }
    }
    proof {
        assert(v@.take(v@.len() as int) =~= v@);
    }
    out
}

fn copy_pairs(v: &[(u64, u64)]) -> (r: Vec<(u64, u64)>)
    ensures
        r@ == v@,
{
    let mut out: Vec<(u64, u64)> = Vec::new();
    let mut i: usize = 0;
    while i < v.len()
        invariant
            i <= v@.len(),
            out@ == v@.take(i as int),
        decreases v@.len() - i,
    {
        out.push(v[i]);
        i = i + 1;
        proof {
            assert(out@ =~= v@.take(i as int));
        }
    }
    proof {
        assert(v@.take(v@.len() as int) =~= v@);
    }
    out
}

/// A client of the condition part of the histogrammer: it holds the
/// channel on which requests are sent and makes a reply channel for each
/// request.
pub struct ConditionMessageClient {
    req_send: Sender<Request>,
}

impl ConditionMessageClient {
    /// The request that creates a `True` condition.
    pub fn make_true_creation(name: &str) -> (r: ConditionRequest)
        ensures
            r matches ConditionRequest::CreateTrue(n) && n@ == name@,
    {
        ConditionRequest::CreateTrue(String::from_str(name))
    }

    /// The request that creates a `False` condition.
    pub fn make_false_creation(name: &str) -> (r: ConditionRequest)
        ensures
            r matches ConditionRequest::CreateFalse(n) && n@ == name@,
    {
        ConditionRequest::CreateFalse(String::from_str(name))
    }

    /// The request that creates a `Not` condition.
    pub fn make_not_creation(name: &str, dependent: &str) -> (r: ConditionRequest)
        ensures
            r matches ConditionRequest::CreateNot { name: n, dependent: d } && n@ == name@ && d@ == dependent@,
    {
        ConditionRequest::CreateNot { name: String::from_str(name), dependent: String::from_str(dependent) }
    }

    /// The request that creates an `And` condition.
    pub fn make_and_creation(name: &str, dependents: &[String]) -> (r: ConditionRequest)
        ensures
            r matches ConditionRequest::CreateAnd { name: n, dependents: d } && n@ == name@ && d@.len()
                == dependents@.len() && forall|k: int| 0 <= k < d@.len() ==> #[trigger] d@[k]@ == dependents@[k]@,
    {
        ConditionRequest::CreateAnd { name: String::from_str(name), dependents: copy_strings(dependents) }
    }

    /// The request that creates an `Or` condition.
    pub fn make_or_creation(name: &str, dependents: &[String]) -> (r: ConditionRequest)
        ensures
            r matches ConditionRequest::CreateOr { name: n, dependents: d } && n@ == name@ && d@.len()
                == dependents@.len() && forall|k: int| 0 <= k < d@.len() ==> #[trigger] d@[k]@ == dependents@[k]@,
    {
        ConditionRequest::CreateOr { name: String::from_str(name), dependents: copy_strings(dependents) }
    }

    /// The request that creates a cut.
    pub fn make_cut_creation(name: &str, param_id: u32, low: u64, high: u64) -> (r: ConditionRequest)
        ensures
            r matches ConditionRequest::CreateCut { name: n, param_id: p, low: l, high: h } && n@ == name@ && p
                == param_id && l == low && h == high,
    {
        ConditionRequest::CreateCut { name: String::from_str(name), param_id, low, high }
    }

    /// The request that creates a band.
    pub fn make_band_creation(name: &str, x_id: u32, y_id: u32, points: &[(u64, u64)]) -> (r: ConditionRequest)
        ensures
            r matches ConditionRequest::CreateBand { name: n, x_id: x, y_id: y, points: p } && n@ == name@ && x
                == x_id && y == y_id && p@ == points@,
    {
        ConditionRequest::CreateBand { name: String::from_str(name), x_id, y_id, points: copy_pairs(points) }
    }

    /// The request that creates a contour.
    pub fn make_contour_creation(name: &str, x_id: u32, y_id: u32, points: &[(u64, u64)]) -> (r: ConditionRequest)
        ensures
            r matches ConditionRequest::CreateContour { name: n, x_id: x, y_id: y, points: p } && n@ == name@ && x
                == x_id && y == y_id && p@ == points@,
    {
        ConditionRequest::CreateContour { name: String::from_str(name), x_id, y_id, points: copy_pairs(points) }
    }

    /// The request that creates a multi cut.
    pub fn make_multicut_creation(name: &str, ids: &[u32], low: u64, high: u64) -> (r: ConditionRequest)
        ensures
            r matches ConditionRequest::CreateMultiCut { name: n, ids: i, low: l, high: h } && n@ == name@ && i@
                == ids@ && l == low && h == high,
    {
        ConditionRequest::CreateMultiCut { name: String::from_str(name), ids: copy_ids(ids), low, high }
    }

    /// The request that creates a multi contour.
    pub fn make_multicontour_creation(name: &str, ids: &[u32], points: &[(u64, u64)]) -> (r: ConditionRequest)
        ensures
            r matches ConditionRequest::CreateMultiContour { name: n, ids: i, points: p } && n@ == name@ && i@
                == ids@ && p@ == points@,
    {
        ConditionRequest::CreateMultiContour { name: String::from_str(name), ids: copy_ids(ids), points: copy_pairs(points) }
    }

    /// The request that deletes a condition.
    pub fn make_delete(name: &str) -> (r: ConditionRequest)
        ensures
            r matches ConditionRequest::DeleteCondition(n) && n@ == name@,
    {
        ConditionRequest::DeleteCondition(String::from_str(name))
    }

    /// The request that lists conditions.
    pub fn make_list(pattern: &str) -> (r: ConditionRequest)
        ensures
            r matches ConditionRequest::List(p) && p@ == pattern@,
    {
        ConditionRequest::List(String::from_str(pattern))
    }

    /// The request for the histogrammer that carries `req`.
    pub fn make_request(reply_channel: Sender<Reply>, req: ConditionRequest) -> (r: Request)
        ensures
            r.spec_message() == MessageType::Condition(req),
    {
        Request::new(reply_channel, MessageType::Condition(req))
    }

    /// Sends `req` and returns the reply; a failure of the channels or a
    /// reply that is not a condition reply is answered as an error.
    fn transaction(&self, req: ConditionRequest) -> (r: ConditionReply)
        ensures
            exists|o: Result<Reply, String>| transaction_outcome(o) && #[trigger] condition_outcome(o, r),
    {
        let (rep_send, rep_read) = new_channel::<Reply>();
        let request = Self::make_request(rep_send, req);
        let o = request.transaction(&self.req_send, &rep_read);
        let r = condition_result(o);
        proof {
            assert(transaction_outcome(o));
        }
        r
    }

    /// A client that sends its requests along `chan`.
    pub fn new(chan: &Sender<Request>) -> ConditionMessageClient {
        ConditionMessageClient { req_send: clone_sender(chan) }
    }

    /// Creates (or replaces) a `True` condition.
    pub fn create_true_condition(&self, name: &str) -> (r: ConditionReply)
        ensures
            exists|o: Result<Reply, String>| transaction_outcome(o) && #[trigger] condition_outcome(o, r),
    {
        self.transaction(Self::make_true_creation(name))
    }

    /// Creates (or replaces) a `False` condition.
    pub fn create_false_condition(&self, name: &str) -> (r: ConditionReply)
        ensures
            exists|o: Result<Reply, String>| transaction_outcome(o) && #[trigger] condition_outcome(o, r),
    {
        self.transaction(Self::make_false_creation(name))
    }

    /// Creates (or replaces) a `Not` of `dependent`.
    pub fn create_not_condition(&self, name: &str, dependent: &str) -> (r: ConditionReply)
        ensures
            exists|o: Result<Reply, String>| transaction_outcome(o) && #[trigger] condition_outcome(o, r),
    {
        self.transaction(Self::make_not_creation(name, dependent))
    }

    /// Creates (or replaces) an `And` of `dependents`.
    pub fn create_and_condition(&self, name: &str, dependents: &[String]) -> (r: ConditionReply)
        ensures
            exists|o: Result<Reply, String>| transaction_outcome(o) && #[trigger] condition_outcome(o, r),
    {
        self.transaction(Self::make_and_creation(name, dependents))
    }

    /// Creates (or replaces) an `Or` of `dependents`.
    pub fn create_or_condition(&self, name: &str, dependents: &[String]) -> (r: ConditionReply)
        ensures
            exists|o: Result<Reply, String>| transaction_outcome(o) && #[trigger] condition_outcome(o, r),
    {
        self.transaction(Self::make_or_creation(name, dependents))
    }

    /// Creates (or replaces) a cut on parameter `param_id`.
    pub fn create_cut_condition(&self, name: &str, param_id: u32, low: u64, high: u64) -> (r: ConditionReply)
        ensures
            exists|o: Result<Reply, String>| transaction_outcome(o) && #[trigger] condition_outcome(o, r),
    {
        self.transaction(Self::make_cut_creation(name, param_id, low, high))
    }

    /// Creates (or replaces) a band.
    pub fn create_band_condition(&self, name: &str, x_id: u32, y_id: u32, points: &[(u64, u64)]) -> (r: ConditionReply)
        ensures
            exists|o: Result<Reply, String>| transaction_outcome(o) && #[trigger] condition_outcome(o, r),
    {
        self.transaction(Self::make_band_creation(name, x_id, y_id, points))
    }

    /// Creates (or replaces) a contour.
    pub fn create_contour_condition(&self, name: &str, x_id: u32, y_id: u32, points: &[(u64, u64)]) -> (r: ConditionReply)
        ensures
            exists|o: Result<Reply, String>| transaction_outcome(o) && #[trigger] condition_outcome(o, r),
    {
        self.transaction(Self::make_contour_creation(name, x_id, y_id, points))
    }

    /// Creates (or replaces) a multi cut.
    pub fn create_multicut_condition(&self, name: &str, ids: &[u32], low: u64, high: u64) -> (r: ConditionReply)
        ensures
            exists|o: Result<Reply, String>| transaction_outcome(o) && #[trigger] condition_outcome(o, r),
    {
        self.transaction(Self::make_multicut_creation(name, ids, low, high))
    }

    /// Creates (or replaces) a multi contour.
    pub fn create_multicontour_condition(&self, name: &str, ids: &[u32], points: &[(u64, u64)]) -> (r: ConditionReply)
        ensures
            exists|o: Result<Reply, String>| transaction_outcome(o) && #[trigger] condition_outcome(o, r),
    {
        self.transaction(Self::make_multicontour_creation(name, ids, points))
    }

    /// Deletes a condition.
    pub fn delete_condition(&self, name: &str) -> (r: ConditionReply)
        ensures
            exists|o: Result<Reply, String>| transaction_outcome(o) && #[trigger] condition_outcome(o, r),
    {
        self.transaction(Self::make_delete(name))
    }

    /// Lists the conditions whose names match `pattern`.
    pub fn list_conditions(&self, pattern: &str) -> (r: ConditionReply)
        ensures
            exists|o: Result<Reply, String>| transaction_outcome(o) && #[trigger] condition_outcome(o, r),
    {
        self.transaction(Self::make_list(pattern))
    }
}

/// What `condition_result` makes of `outcome`.
pub open spec fn condition_outcome(outcome: Result<Reply, String>, r: ConditionReply) -> bool {
    match outcome {
        Ok(Reply::Condition(reply)) => r == reply,
        Ok(_) => r matches ConditionReply::Error(e)
            && e@ == "Condition transaction expected a condition reply but got something different"@,
        Err(e) => r matches ConditionReply::Error(m) && m@ == e@,
    }
}

/// The outcome of a transaction: a reply, or a failure of the channels.
pub open spec fn transaction_outcome(o: Result<Reply, String>) -> bool {
    o matches Err(e) ==> transport_error(e@)
}

/// What a client makes of the outcome of a transaction: the condition reply
/// that came back; a reply for another part of the histogrammer, or a failed
/// send or receive, becomes an error reply.
pub fn condition_result(outcome: Result<Reply, String>) -> (r: ConditionReply)
    ensures
        condition_outcome(outcome, r),
{
    match outcome {
        Ok(Reply::Condition(reply)) => reply,
        Ok(_) => {
            proof {
                reveal_strlit("Condition transaction expected a condition reply but got something different");
            }
            ConditionReply::Error(
                String::from_str("Condition transaction expected a condition reply but got something different"),
            )
        },
        Err(e) => ConditionReply::Error(e),
    }
}

/// Rebuilds a contour (on the dummy parameters 0 and 1) from its listing.
/// `Err` when the listing is not that of a contour or has fewer than three
/// points.
pub fn reconstitute_contour(props: ConditionProperties) -> (r: Result<Contour, String>)
    ensures
        r is Ok <==> props.cond_type@ == "Contour"@ && props.points@.len() >= 3,
        r matches Ok(c) ==> c.spec_parameters() == (0u32, 1u32) && point_pairs(c.spec_points()) == props.points@,
        props.cond_type@ != "Contour"@ ==> (r matches Err(e) && e@
            == "Error reconstituting a contour - input is not a contour"@),
        props.cond_type@ == "Contour"@ && props.points@.len() < 3 ==> (r matches Err(e) && e@
            == "Failed to reconstitute contour in constructor - maybe too few points?"@),
{
    proof {
        reveal_strlit("Contour");
        reveal_strlit("Failed to reconstitute contour in constructor - maybe too few points?");
        reveal_strlit("Error reconstituting a contour - input is not a contour");
    }
    let contour_name = String::from_str("Contour");
    if props.cond_type == contour_name {
        let pts = ConditionProcessor::convert_points(&props.points);
        match Contour::new(0, 1, pts) {
            Some(c) => Ok(c),
            None => Err(String::from_str("Failed to reconstitute contour in constructor - maybe too few points?")),
        }
    } else {
        Err(String::from_str("Error reconstituting a contour - input is not a contour"))
    }
}

/// The name a creation request gives its condition; `None` for the other
/// requests.
pub open spec fn creation_name(req: ConditionRequest) -> Option<Seq<char>> {
    match req {
        ConditionRequest::CreateTrue(name) => Some(name@),
        ConditionRequest::CreateFalse(name) => Some(name@),
        ConditionRequest::CreateNot { name, .. } => Some(name@),
        ConditionRequest::CreateAnd { name, .. } => Some(name@),
        ConditionRequest::CreateOr { name, .. } => Some(name@),
        ConditionRequest::CreateCut { name, .. } => Some(name@),
        ConditionRequest::CreateBand { name, .. } => Some(name@),
        ConditionRequest::CreateContour { name, .. } => Some(name@),
        ConditionRequest::CreateMultiCut { name, .. } => Some(name@),
        ConditionRequest::CreateMultiContour { name, .. } => Some(name@),
        _ => None,
    }
}

proof fn lemma_placed_named(
    old: Seq<Option<(Seq<char>, Condition)>>,
    new: Seq<Option<(Seq<char>, Condition)>>,
    name: Seq<char>,
    c: Condition,
)
    requires
        placed(old, new, name, c),
        forall|i: int, j: int| named(old, name, i) && named(old, name, j) ==> i == j,
    ensures
        has_named(new, name),
        exists|s: int| #[trigger] named(new, name, s) && entry_cond(new[s]) == c,
        forall|s: int| named(old, name, s) ==> #[trigger] named(new, name, s) && entry_cond(new[s]) == c,
{
    if has_named(old, name) {
        let s = choose|s: int| named(old, name, s) && new == old.update(s, Some((name, c)));
        assert(named(new, name, s));
        assert(entry_cond(new[s]) == c);
        assert forall|t: int| named(old, name, t) implies #[trigger] named(new, name, t) && entry_cond(new[t]) == c by {
            assert(t == s);
        }
    } else {
        assert(named(new, name, old.len() as int));
        assert(entry_cond(new[old.len() as int]) == c);
    }
}

/// The kind of condition a creation request makes.
pub open spec fn creation_type(req: ConditionRequest) -> Seq<char> {
    match req {
        ConditionRequest::CreateTrue(_) => "True"@,
        ConditionRequest::CreateFalse(_) => "False"@,
        ConditionRequest::CreateNot { .. } => "Not"@,
        ConditionRequest::CreateAnd { .. } => "And"@,
        ConditionRequest::CreateOr { .. } => "Or"@,
        ConditionRequest::CreateCut { .. } => "Cut"@,
        ConditionRequest::CreateBand { .. } => "Band"@,
        ConditionRequest::CreateContour { .. } => "Contour"@,
        ConditionRequest::CreateMultiCut { .. } => "MultiCut"@,
        ConditionRequest::CreateMultiContour { .. } => "MultiContour"@,
        _ => Seq::empty(),
    }
}

/// After a successful creation, the slot that holds the new condition.
proof fn lemma_created_slot(
    old_p: ConditionProcessor,
    req: ConditionRequest,
    new_p: ConditionProcessor,
    reply: ConditionReply,
) -> (slot: int)
    requires
        old_p.wf(),
        condition_request_served(old_p, req, new_p, reply),
        creation_name(req) is Some,
        reply is Created || reply is Replaced,
    ensures
        named(new_p.spec_dict().entries(), creation_name(req)->0, slot),
        entry_cond(new_p.spec_dict().entries()[slot]).spec_type_name() == creation_type(req),
        has_named(new_p.spec_dict().entries(), creation_name(req)->0),
        reply is Replaced <==> has_named(old_p.spec_dict().entries(), creation_name(req)->0),
        forall|s: int|
            named(old_p.spec_dict().entries(), creation_name(req)->0, s) ==> #[trigger] named(
                new_p.spec_dict().entries(),
                creation_name(req)->0,
                s,
            ),
{
    let e0 = old_p.spec_dict().entries();
    let e1 = new_p.spec_dict().entries();
    let n = creation_name(req)->0;
    assert forall|i: int, j: int| named(e0, n, i) && named(e0, n, j) implies i == j by {
        if i != j {
            assert(entry_name(e0[i]) != entry_name(e0[j]));
        }
    }
    match req {
        ConditionRequest::CreateTrue(name) => {
            lemma_placed_named(e0, e1, n, Condition::True(True {}));
            choose|s: int| #[trigger] named(e1, n, s) && entry_cond(e1[s]) == Condition::True(True {})
        },
        ConditionRequest::CreateFalse(name) => {
            lemma_placed_named(e0, e1, n, Condition::False(False {}));
            choose|s: int| #[trigger] named(e1, n, s) && entry_cond(e1[s]) == Condition::False(False {})
        },
        ConditionRequest::CreateNot { name, dependent } => {
            let (d, c) = choose|d: int, c: Not|
                named(e0, dependent@, d) && c.spec_dependent() == d && c.spec_cache() is None && placed(
                    e0,
                    e1,
                    name@,
                    Condition::Not(c),
                ) && creation_reply(e0, name@, reply);
            lemma_placed_named(e0, e1, n, Condition::Not(c));
            choose|s: int| #[trigger] named(e1, n, s) && entry_cond(e1[s]) == Condition::Not(c)
        },
        ConditionRequest::CreateAnd { name, dependents } => {
            let a = choose|a: And|
                slots_of(e0, dependents@, a.spec_dependents()) && a.spec_cache() is None && placed(
                    e0,
                    e1,
                    name@,
                    Condition::And(a),
                ) && creation_reply(e0, name@, reply);
            lemma_placed_named(e0, e1, n, Condition::And(a));
            choose|s: int| #[trigger] named(e1, n, s) && entry_cond(e1[s]) == Condition::And(a)
        },
        ConditionRequest::CreateOr { name, dependents } => {
            let o = choose|o: Or|
                slots_of(e0, dependents@, o.spec_dependents()) && o.spec_cache() is None && placed(
                    e0,
                    e1,
                    name@,
                    Condition::Or(o),
                ) && creation_reply(e0, name@, reply);
            lemma_placed_named(e0, e1, n, Condition::Or(o));
            choose|s: int| #[trigger] named(e1, n, s) && entry_cond(e1[s]) == Condition::Or(o)
        },
        ConditionRequest::CreateCut { name, param_id, low, high } => {
            let c = choose|c: Cut|
                c.spec_parameter() == param_id && c.spec_low() == low && c.spec_high() == high && c.spec_cache() is None
                    && placed(e0, e1, name@, Condition::Cut(c)) && creation_reply(e0, name@, reply);
            lemma_placed_named(e0, e1, n, Condition::Cut(c));
            choose|s: int| #[trigger] named(e1, n, s) && entry_cond(e1[s]) == Condition::Cut(c)
        },
        ConditionRequest::CreateBand { name, x_id, y_id, points } => {
            let b = choose|b: Band|
                b.spec_parameters() == (x_id, y_id) && point_pairs(b.spec_points()) == points@ && b.spec_cache() is None
                    && placed(e0, e1, name@, Condition::Band(b)) && creation_reply(e0, name@, reply);
            lemma_placed_named(e0, e1, n, Condition::Band(b));
            choose|s: int| #[trigger] named(e1, n, s) && entry_cond(e1[s]) == Condition::Band(b)
        },
        ConditionRequest::CreateContour { name, x_id, y_id, points } => {
            let c = choose|c: Contour|
                c.spec_parameters() == (x_id, y_id) && point_pairs(c.spec_points()) == points@ && c.spec_cache() is None
                    && placed(e0, e1, name@, Condition::Contour(c)) && creation_reply(e0, name@, reply);
            lemma_placed_named(e0, e1, n, Condition::Contour(c));
            choose|s: int| #[trigger] named(e1, n, s) && entry_cond(e1[s]) == Condition::Contour(c)
        },
        ConditionRequest::CreateMultiCut { name, ids, low, high } => {
            let m = choose|m: MultiCut|
                m.spec_parameters() == ids@ && m.spec_low() == low && m.spec_high() == high && m.spec_cache() is None
                    && placed(e0, e1, name@, Condition::MultiCut(m)) && creation_reply(e0, name@, reply);
            lemma_placed_named(e0, e1, n, Condition::MultiCut(m));
            choose|s: int| #[trigger] named(e1, n, s) && entry_cond(e1[s]) == Condition::MultiCut(m)
        },
        ConditionRequest::CreateMultiContour { name, ids, points } => {
            let m = choose|m: MultiContour|
                m.spec_parameters() == ids@ && point_pairs(m.spec_points()) == points@ && m.spec_cache() is None
                    && placed(e0, e1, name@, Condition::MultiContour(m)) && creation_reply(e0, name@, reply);
            lemma_placed_named(e0, e1, n, Condition::MultiContour(m));
            choose|s: int| #[trigger] named(e1, n, s) && entry_cond(e1[s]) == Condition::MultiContour(m)
        },
        _ => 0,
    }
}

/// A condition that was created is there under its name afterwards.  The
/// reply says whether a condition of that name was replaced; the new one
/// then takes over its slot, so the conditions that depended on the old
/// one depend on the new one.
pub proof fn law_created_condition_is_named(
    old_p: ConditionProcessor,
    req: ConditionRequest,
    new_p: ConditionProcessor,
    reply: ConditionReply,
)
    requires
        old_p.wf(),
        condition_request_served(old_p, req, new_p, reply),
        creation_name(req) is Some,
        reply is Created || reply is Replaced,
    ensures
        has_named(new_p.spec_dict().entries(), creation_name(req)->0),
        reply is Replaced <==> has_named(old_p.spec_dict().entries(), creation_name(req)->0),
        forall|s: int|
            named(old_p.spec_dict().entries(), creation_name(req)->0, s) ==> #[trigger] named(
                new_p.spec_dict().entries(),
                creation_name(req)->0,
                s,
            ),
{
    lemma_created_slot(old_p, req, new_p, reply);
}

proof fn lemma_matching_slot_listed(entries: Seq<Option<(Seq<char>, Condition)>>, pattern: Seq<char>, n: int, s: int)
    requires
        0 <= s < n,
        s < entries.len(),
        entries[s] is Some,
        glob_matches(pattern, entry_name(entries[s])),
    ensures
        exists|k: int| 0 <= k < matching_slots(entries, pattern, n).len() && #[trigger] matching_slots(entries, pattern, n)[k] == s,
    decreases n,
{
    let m = matching_slots(entries, pattern, n);
    if s == n - 1 {
        assert(m[m.len() - 1] == s);
    } else {
        lemma_matching_slot_listed(entries, pattern, n - 1, s);
        let rest = matching_slots(entries, pattern, n - 1);
        let k = choose|k: int| 0 <= k < rest.len() && #[trigger] rest[k] == s;
        assert(m[k] == s);
    }
}

/// What is created is listed: after a successful creation, listing any
/// valid pattern that the new name matches shows a condition of that name
/// and of the kind just created.
pub proof fn law_created_condition_is_listed(
    p0: ConditionProcessor,
    req: ConditionRequest,
    p1: ConditionProcessor,
    reply: ConditionReply,
    pattern: String,
    p2: ConditionProcessor,
    listing: ConditionReply,
)
    requires
        p0.wf(),
        condition_request_served(p0, req, p1, reply),
        creation_name(req) is Some,
        reply is Created || reply is Replaced,
        condition_request_served(p1, ConditionRequest::List(pattern), p2, listing),
        glob_compile_error(pattern@) is None,
        glob_matches(pattern@, creation_name(req)->0),
    ensures
        listing matches ConditionReply::Listing(v) && exists|k: int|
            0 <= k < v@.len() && #[trigger] v@[k].cond_name@ == creation_name(req)->0 && v@[k].cond_type@
                == creation_type(req),
{
    let s = lemma_created_slot(p0, req, p1, reply);
    let e1 = p1.spec_dict().entries();
    lemma_matching_slot_listed(e1, pattern@, e1.len() as int, s);
    let slots = matching_slots(e1, pattern@, e1.len() as int);
    let k = choose|k: int| 0 <= k < slots.len() && #[trigger] slots[k] == s;
    let v = listing->Listing_0;
    assert(describes(e1, slots[k], v@[k]));
    assert(v@[k].cond_name@ == creation_name(req)->0);
}

/// A deleted condition is gone: no slot holds its name any more.
pub proof fn law_deleted_condition_is_gone(
    old_p: ConditionProcessor,
    name: String,
    new_p: ConditionProcessor,
    reply: ConditionReply,
)
    requires
        old_p.wf(),
        condition_request_served(old_p, ConditionRequest::DeleteCondition(name), new_p, reply),
    ensures
        !has_named(new_p.spec_dict().entries(), name@),
{
    let e0 = old_p.spec_dict().entries();
    let e1 = new_p.spec_dict().entries();
    if has_named(e0, name@) {
        let s = choose|s: int| named(e0, name@, s) && e1 == e0.update(s, None);
        if has_named(e1, name@) {
            let t = choose|t: int| #[trigger] named(e1, name@, t);
            assert(t != s);
            assert(named(e0, name@, t));
            assert(entry_name(e0[t]) != entry_name(e0[s]));
        }
    }
}

} // verus!
