//! Parameters, the dictionary that names them, events, the mapping of
//! foreign parameter ids onto the dictionary's ids, and flattened events.
//!
//! A parameter has a name, an id and optional metadata (suggested axis
//! limits and binning, units and a description).  Parameters are permanent:
//! once added to a dictionary they are never removed.  Ids are handed out
//! by the dictionary, starting at 1.
//!
//! Parameter values and axis limits are binary64 numbers carried as their
//! bit patterns (`f64::to_bits`).
use vstd::prelude::*;

verus! {

/// The abstract content of a parameter.
pub struct ParameterView {
    pub name: Seq<char>,
    pub id: u32,
    pub low: Option<u64>,
    pub high: Option<u64>,
    pub bins: Option<u32>,
    pub units: Option<Seq<char>>,
    pub description: Option<Seq<char>>,
}

/// The view of an optional string.
pub open spec fn opt_string_view(s: Option<String>) -> Option<Seq<char>> {
    match s {
        Some(v) => Some(v@),
        None => None,
    }
}

/// A parameter without metadata.
pub open spec fn bare_parameter(name: Seq<char>, id: u32) -> ParameterView {
    ParameterView {
        name,
        id,
        low: None,
        high: None,
        bins: None,
        units: None,
        description: None,
    }
}

fn copy_opt_string(s: &Option<String>) -> (r: Option<String>)
    ensures
        opt_string_view(r) == opt_string_view(*s),
{
    match s {
        Some(v) => Some(v.clone()),
        None => None,
    }
}

/// A parameter definition.
#[derive(Clone, Debug, PartialEq)]
pub struct Parameter {
    name: String,
    id: u32,
    low: Option<u64>,
    high: Option<u64>,
    bins: Option<u32>,
    units: Option<String>,
    description: Option<String>,
}

impl View for Parameter {
    type V = ParameterView;

    closed spec fn view(&self) -> ParameterView {
        ParameterView {
            name: self.name@,
            id: self.id,
            low: self.low,
            high: self.high,
            bins: self.bins,
            units: opt_string_view(self.units),
            description: opt_string_view(self.description),
        }
    }
}

impl Parameter {
    /// A parameter with a name and an id and no metadata.
    pub fn new(name: &str, id: u32) -> (r: Parameter)
        ensures
            r@ == bare_parameter(name@, id),
    {
        Parameter {
            name: String::from_str(name),
            id,
            low: None,
            high: None,
            bins: None,
            units: None,
            description: None,
        }
    }

    /// Sets the suggested axis limits (bit patterns of the low and high
    /// values).
    pub fn set_limits(&mut self, l: u64, h: u64) -> (r: &mut Self)
        ensures
            r@ == (ParameterView { low: Some(l), high: Some(h), ..old(self)@ }),
            *final(self) == *final(r),
    {
        self.low = Some(l);
        self.high = Some(h);
        self
    }

    /// Sets the suggested number of bins.
    pub fn set_bins(&mut self, b: u32) -> (r: &mut Self)
        ensures
            r@ == (ParameterView { bins: Some(b), ..old(self)@ }),
            *final(self) == *final(r),
    {
        self.bins = Some(b);
        self
    }

    /// Sets the units of measure.
    pub fn set_units(&mut self, u: &str) -> (r: &mut Self)
        ensures
            r@ == (ParameterView { units: Some(u@), ..old(self)@ }),
            *final(self) == *final(r),
    {
        self.units = Some(String::from_str(u));
        self
    }

    /// Sets the description.
    pub fn set_description(&mut self, d: &str) -> (r: &mut Self)
        ensures
            r@ == (ParameterView { description: Some(d@), ..old(self)@ }),
            *final(self) == *final(r),
    {
        self.description = Some(String::from_str(d));
        self
    }

    /// The name.
    pub fn get_name(&self) -> (r: String)
        ensures
            r@ == self@.name,
    {
        self.name.clone()
    }

    /// The id.
    pub fn get_id(&self) -> (r: u32)
        ensures
            r == self@.id,
    {
        self.id
    }

    /// The suggested limits: `.0` is the low and `.1` the high limit.
    pub fn get_limits(&self) -> (r: (Option<u64>, Option<u64>))
        ensures
            r == (self@.low, self@.high),
    {
        (self.low, self.high)
    }

    /// The suggested binning.
    pub fn get_bins(&self) -> (r: Option<u32>)
        ensures
            r == self@.bins,
    {
        self.bins
    }

    /// The units of measure.
    pub fn get_units(&self) -> (r: Option<String>)
        ensures
            opt_string_view(r) == self@.units,
    {
        copy_opt_string(&self.units)
    }

    /// The description.
    pub fn get_description(&self) -> (r: Option<String>)
        ensures
            opt_string_view(r) == self@.description,
    {
        copy_opt_string(&self.description)
    }

    /// A copy of the parameter.
    pub fn duplicate(&self) -> (r: Parameter)
        ensures
            r@ == self@,
    {
        Parameter {
            name: self.name.clone(),
            id: self.id,
            low: self.low,
            high: self.high,
            bins: self.bins,
            units: copy_opt_string(&self.units),
            description: copy_opt_string(&self.description),
        }
    }
}

/// The views of a sequence of parameters.
pub open spec fn parameter_views(s: Seq<Parameter>) -> Seq<ParameterView> {
    s.map_values(|p: Parameter| p@)
}

/// Does some parameter in `s` have the name `name`?
pub open spec fn has_name(s: Seq<ParameterView>, name: Seq<char>) -> bool {
    exists|i: int| 0 <= i < s.len() && #[trigger] s[i].name == name
}

/// Does some parameter in `s` have the id `id`?
pub open spec fn has_id(s: Seq<ParameterView>, id: u32) -> bool {
    exists|i: int| 0 <= i < s.len() && #[trigger] s[i].id == id
}

/// Names of `s` are pairwise distinct, and so are ids.
pub open spec fn distinct_names_and_ids(s: Seq<ParameterView>) -> bool {
    forall|i: int, j: int|
        0 <= i < s.len() && 0 <= j < s.len() && i != j ==> {
            &&& #[trigger] s[i].name != #[trigger] s[j].name
            &&& s[i].id != s[j].id
        }
}

/// The parameter dictionary: parameters looked up by name, with ids handed
/// out in order of creation.
pub struct ParameterDictionary {
    next_id: u32,
    params: Vec<Parameter>,
}

impl View for ParameterDictionary {
    type V = Seq<ParameterView>;

    /// The parameters in order of creation.
    closed spec fn view(&self) -> Seq<ParameterView> {
        parameter_views(self.params@)
    }
}

impl ParameterDictionary {
    /// The id that the next added parameter gets.
    pub closed spec fn spec_next_id(&self) -> u32 {
        self.next_id
    }

    /// Names and ids are distinct and every id is below the next one.
    pub closed spec fn wf(&self) -> bool {
        &&& distinct_names_and_ids(self@)
        &&& forall|i: int| 0 <= i < self@.len() ==> #[trigger] self@[i].id < self.next_id
    }

    /// A well formed dictionary has distinct names and ids.
    pub proof fn lemma_distinct(&self)
        requires
            self.wf(),
        ensures
            distinct_names_and_ids(self@),
    {
    }

    /// An empty dictionary.
    pub fn new() -> (r: ParameterDictionary)
        ensures
            r.wf(),
            r@ == Seq::<ParameterView>::empty(),
            r.spec_next_id() == 1,
    {
        ParameterDictionary { next_id: 1, params: Vec::new() }
    }

    /// The number of parameters.
    pub fn len(&self) -> (r: usize)
        ensures
            r == self@.len(),
    {
        self.params.len()
    }

    /// The id the next added parameter gets.
    pub fn next_id(&self) -> (r: u32)
        ensures
            r == self.spec_next_id(),
    {
        self.next_id
    }

    fn find(&self, name: &String) -> (r: Option<usize>)
        ensures
            match r {
                Some(i) => i < self@.len() && self@[i as int].name == name@,
                None => !has_name(self@, name@),
            },
    {
        let mut i: usize = 0;
        while i < self.params.len()
            invariant
                i <= self.params@.len(),
                self@ == parameter_views(self.params@),
                forall|j: int| 0 <= j < i ==> #[trigger] self@[j].name != name@,
            decreases self.params@.len() - i,
        {
            if self.params[i].name == *name {
                return Some(i);
            }
            i = i + 1;
        }
        None
    }

    /// Adds a parameter named `name` with the next id.  A name that is
    /// already defined gives `Err("Duplicate parameter")`.
    pub fn add(&mut self, name: &str) -> (r: Result<String, String>)
        requires
            old(self).wf(),
            old(self).spec_next_id() < u32::MAX,
        ensures
            final(self).wf(),
            has_name(old(self)@, name@) ==> {
                &&& r matches Err(e) && e@ == "Duplicate parameter"@
                &&& final(self)@ == old(self)@
                &&& final(self).spec_next_id() == old(self).spec_next_id()
            },
            !has_name(old(self)@, name@) ==> {
                &&& r matches Ok(n) && n@ == name@
                &&& final(self)@ == old(self)@.push(bare_parameter(name@, old(self).spec_next_id()))
                &&& final(self).spec_next_id() == old(self).spec_next_id() + 1
            },
    {
        let key = String::from_str(name);
        match self.find(&key) {
            Some(i) => {
                proof {
                    reveal_strlit("Duplicate parameter");
                }
                Err(String::from_str("Duplicate parameter"))
            },
            None => {
                let p = Parameter::new(name, self.next_id);
                self.params.push(p);
                self.next_id = self.next_id + 1;
                proof {
                    assert(self@ =~= old(self)@.push(bare_parameter(name@, old(self).next_id)));
                }
                Ok(key)
            },
        }
    }

    /// Adds a parameter named `name` with the id `id` given elsewhere (e.g.
    /// by another dictionary); later ids are handed out above it.  A name
    /// or an id already in use gives `Err("Duplicate parameter")`.
    pub fn add_with_id(&mut self, name: &str, id: u32) -> (r: Result<String, String>)
        requires
            old(self).wf(),
            id < u32::MAX,
        ensures
            final(self).wf(),
            (has_name(old(self)@, name@) || has_id(old(self)@, id)) ==> {
                &&& r matches Err(e) && e@ == "Duplicate parameter"@
                &&& final(self)@ == old(self)@
                &&& final(self).spec_next_id() == old(self).spec_next_id()
            },
            !(has_name(old(self)@, name@) || has_id(old(self)@, id)) ==> {
                &&& r matches Ok(n) && n@ == name@
                &&& final(self)@ == old(self)@.push(bare_parameter(name@, id))
                &&& final(self).spec_next_id() == if id < old(self).spec_next_id() {
                    old(self).spec_next_id()
                } else {
                    (id + 1) as u32
                }
            },
    {
        proof {
            reveal_strlit("Duplicate parameter");
        }
        let key = String::from_str(name);
        if self.find(&key).is_some() {
            return Err(String::from_str("Duplicate parameter"));
        }
        let mut i: usize = 0;
        while i < self.params.len()
            invariant
                i <= self.params@.len(),
                self@ == parameter_views(self.params@),
                self.wf(),
                *self == *old(self),
                forall|j: int| 0 <= j < i ==> #[trigger] self@[j].id != id,
            decreases self.params@.len() - i,
        {
            if self.params[i].id == id {
                proof {
                    assert(self@[i as int].id == id);
                }
                return Err(String::from_str("Duplicate parameter"));
            }
            i = i + 1;
        }
        let p = Parameter::new(name, id);
        self.params.push(p);
        if id >= self.next_id {
            self.next_id = id + 1;
        }
        proof {
            assert(self@ =~= old(self)@.push(bare_parameter(name@, id)));
        }
        Ok(key)
    }

    /// The parameter named `name`, if there is one.
    pub fn lookup(&self, name: &str) -> (r: Option<&Parameter>)
        requires
            self.wf(),
        ensures
            r is Some <==> has_name(self@, name@),
            r matches Some(p) ==> p@.name == name@ && self@.contains(p@),
    {
        let key = String::from_str(name);
        match self.find(&key) {
            Some(i) => {
                proof {
                    assert(self@[i as int] == self.params@[i as int]@);
                }
                Some(&self.params[i])
            },
            None => None,
        }
    }

    /// The parameter named `name`, for modification of its metadata.
    /// The dictionary stays well formed as long as the name and the id of
    /// the parameter are left as they are (no method of `Parameter` changes
    /// them).
    pub fn lookup_mut(&mut self, name: &str) -> (r: Option<&mut Parameter>)
        requires
            old(self).wf(),
        ensures
            r is Some <==> has_name(old(self)@, name@),
            r is None ==> *final(self) == *old(self),
            r matches Some(p) ==> exists|i: int|
                0 <= i < old(self)@.len() && {
                    &&& old(self)@[i].name == name@
                    &&& (*p)@ == old(self)@[i]
                    &&& final(self)@ == old(self)@.update(i, final(p)@)
                    &&& final(self).spec_next_id() == old(self).spec_next_id()
                },
    {
        let key = String::from_str(name);
        match self.find(&key) {
            Some(i) => {
                proof {
                    assert(old(self)@[i as int] == self.params@[i as int]@);
                }
                let ghost before = self.params@;
                let r = &mut self.params[i];
                proof {
                    assert(parameter_views(before.update(i as int, *final(r))) =~= old(self)@.update(
                        i as int,
                        final(r)@,
                    ));
                }
                Some(r)
            },
            None => None,
        }
    }

    /// Replacing a parameter by one with the same name and id keeps the
    /// dictionary well formed.
    pub proof fn lemma_update_keeps_wf(&self, other: &ParameterDictionary, i: int)
        requires
            self.wf(),
            0 <= i < self@.len(),
            other.spec_next_id() == self.spec_next_id(),
            other@.len() == self@.len(),
            forall|j: int| 0 <= j < self@.len() && j != i ==> other@[j] == self@[j],
            other@[i].name == self@[i].name,
            other@[i].id == self@[i].id,
        ensures
            other.wf(),
    {
        assert forall|a: int, b: int|
            0 <= a < other@.len() && 0 <= b < other@.len() && a != b implies {
            &&& #[trigger] other@[a].name != #[trigger] other@[b].name
            &&& other@[a].id != other@[b].id
        } by {
            assert(self@[a].name != self@[b].name);
        }
        assert forall|j: int| 0 <= j < other@.len() implies #[trigger] other@[j].id < other.spec_next_id() by {
            assert(self@[j].id < self.spec_next_id());
        }
    }

    /// The parameters in order of creation.
    pub fn iter(&self) -> (r: &[Parameter])
        ensures
            parameter_views(r@) == self@,
    {
        self.params.as_slice()
    }

    /// The parameters in order of creation, for modification of their
    /// metadata.  The dictionary stays well formed as long as names and ids
    /// are left as they are (see `lemma_update_keeps_wf`).
    pub fn iter_mut(&mut self) -> (r: &mut [Parameter])
        ensures
            parameter_views(r@) == old(self)@,
            final(self)@ == parameter_views(final(r)@),
            final(self).spec_next_id() == old(self).spec_next_id(),
    {
        self.params.as_mut_slice()
    }
}

/// One parameter of an event: its id and the bit pattern of its value.
#[derive(Clone, Copy, Debug, PartialEq, Eq)]
pub struct EventParameter {
    pub id: u32,
    pub value: u64,
}

impl EventParameter {
    /// An id/value pair.
    pub fn new(id: u32, value: u64) -> (r: EventParameter)
        ensures
            r == (EventParameter { id, value }),
    {
        EventParameter { id, value }
    }
}

/// An event: id/value pairs.
pub type Event = Vec<EventParameter>;

/// The contents of each event of a sequence of events.
pub open spec fn event_views(s: Seq<Event>) -> Seq<Seq<EventParameter>> {
    s.map_values(|e: Event| e@)
}

/// The event that `map` (indexed by input id) makes of `ine`: each pair
/// whose id maps keeps its value under the mapped id, the others are
/// dropped.
pub open spec fn mapped_event(map: Seq<Option<u32>>, ine: Seq<EventParameter>) -> Seq<EventParameter>
    decreases ine.len(),
{
    if ine.len() == 0 {
        Seq::empty()
    } else {
        let rest = mapped_event(map, ine.drop_last());
        let p = ine.last();
        if p.id < map.len() && map[p.id as int] is Some {
            rest.push(EventParameter { id: map[p.id as int]->0, value: p.value })
        } else {
            rest
        }
    }
}

/// The output id that `map` gives the input id `id`.
pub open spec fn mapping_of(map: Seq<Option<u32>>, id: u32) -> Option<u32> {
    if id < map.len() {
        map[id as int]
    } else {
        None
    }
}

/// `map` sends the input id `id` to the id of a parameter of `dict` named
/// `name`.
pub open spec fn maps_to_named(dict: Seq<ParameterView>, map: Seq<Option<u32>>, id: u32, name: Seq<char>) -> bool {
    exists|i: int| 0 <= i < dict.len() && #[trigger] dict[i].name == name && mapping_of(map, id) == Some(dict[i].id)
}

/// A correspondence between the parameter ids of incoming events and the
/// ids of a parameter dictionary.
pub struct ParameterIdMap {
    dict: ParameterDictionary,
    map: Vec<Option<u32>>,
}

impl ParameterIdMap {
    /// The dictionary.
    pub closed spec fn spec_dict(&self) -> ParameterDictionary {
        self.dict
    }

    /// The map, indexed by input id.
    pub closed spec fn spec_map(&self) -> Seq<Option<u32>> {
        self.map@
    }

    /// The id that `input_id` is mapped onto, if any.
    pub fn get_mapping(&self, input_id: u32) -> (r: Option<u32>)
        ensures
            r == mapping_of(self.spec_map(), input_id),
    {
        let i = input_id as usize;
        if i < self.map.len() {
            self.map[i]
        } else {
            None
        }
    }

    /// An empty dictionary and no mappings.
    pub fn new() -> (r: ParameterIdMap)
        ensures
            r.spec_dict().wf(),
            r.spec_dict()@ == Seq::<ParameterView>::empty(),
            r.spec_dict().spec_next_id() == 1,
            r.spec_map() == Seq::<Option<u32>>::empty(),
    {
        ParameterIdMap { dict: ParameterDictionary::new(), map: Vec::new() }
    }

    /// The dictionary.
    pub fn get_dict(&self) -> (r: &ParameterDictionary)
        ensures
            *r == self.spec_dict(),
    {
        &self.dict
    }

    /// The dictionary, e.g. to add parameters.  The mappings stay as they
    /// are.
    pub fn get_dict_mut(&mut self) -> (r: &mut ParameterDictionary)
        ensures
            *r == old(self).spec_dict(),
            final(self).spec_dict() == *final(r),
            final(self).spec_map() == old(self).spec_map(),
    {
        &mut self.dict
    }

    /// Maps the input id `input_id` onto the id of the parameter `name`.
    ///
    /// * `Err("No Such parameter")` when the dictionary has no such name.
    /// * `Err("Duplicate Map")` when `input_id` is already mapped to a
    ///   different id.
    /// * Otherwise `Ok` with the mapped id.
    /// * (`Err("Input id out of range")` for an id that cannot index memory,
    ///   which only happens where `usize` has 32 bits.)
    pub fn map(&mut self, input_id: u32, name: &str) -> (r: Result<u32, String>)
        requires
            old(self).spec_dict().wf(),
        ensures
            final(self).spec_dict() == old(self).spec_dict(),
            r is Err ==> final(self).spec_map() == old(self).spec_map(),
            r is Ok ==> {
                &&& maps_to_named(old(self).spec_dict()@, final(self).spec_map(), input_id, name@)
                &&& forall|k: u32| k != input_id ==> #[trigger] mapping_of(final(self).spec_map(), k) == mapping_of(
                    old(self).spec_map(),
                    k,
                )
                &&& mapping_of(old(self).spec_map(), input_id) is Some ==> mapping_of(final(self).spec_map(), input_id)
                    == mapping_of(old(self).spec_map(), input_id)
            },
            input_id >= usize::MAX ==> {
                &&& r matches Err(e) && e@ == "Input id out of range"@
                &&& final(self).spec_map() == old(self).spec_map()
            },
            input_id < usize::MAX && !has_name(old(self).spec_dict()@, name@) ==> {
                &&& r matches Err(e) && e@ == "No Such parameter"@
                &&& final(self).spec_map() == old(self).spec_map()
            },
            input_id < usize::MAX && has_name(old(self).spec_dict()@, name@) ==> exists|i: int|
                0 <= i < old(self).spec_dict()@.len() && old(self).spec_dict()@[i].name == name@ && {
                    let id = old(self).spec_dict()@[i].id;
                    let prior = mapping_of(old(self).spec_map(), input_id);
                    let dup = prior is Some && prior->0 != id;
                    &&& dup ==> {
                        &&& r matches Err(e) && e@ == "Duplicate Map"@
                        &&& final(self).spec_map() == old(self).spec_map()
                    }
                    &&& !dup ==> {
                        &&& r == Ok::<u32, String>(id)
                        &&& forall|k: u32| #[trigger] mapping_of(final(self).spec_map(), k) == if k == input_id {
                            Some(id)
                        } else {
                            mapping_of(old(self).spec_map(), k)
                        }
                    }
                },
    {
        if input_id as usize == usize::MAX {
            proof {
                reveal_strlit("Input id out of range");
            }
            return Err(String::from_str("Input id out of range"));
        }
        if let Some(p) = self.dict.lookup(name) {
            let mapped_id = p.get_id();
            let i = input_id as usize;
            if let Some(outid) = self.get_mapping(input_id) {
                if outid != mapped_id {
                    proof {
                        reveal_strlit("Duplicate Map");
                    }
                    return Err(String::from_str("Duplicate Map"));
                }
            }
            if self.map.len() <= i {
                self.map.resize(i + 1, None);
            }
            self.map.set(i, Some(mapped_id));
            proof {
                let ghost m = old(self).spec_map();
                assert forall|k: u32| #[trigger] mapping_of(self.spec_map(), k) == if k == input_id {
                    Some(mapped_id)
                } else {
                    mapping_of(m, k)
                } by {
                    if k != input_id && k < self.map@.len() && k >= m.len() {
                        assert(self.map@[k as int] == None::<u32>);
                    }
                }
                let ghost i = choose|i: int| 0 <= i < self.dict@.len() && self.dict@[i] == p@;
                assert(self.dict@[i].name == name@);
                assert(mapping_of(self.spec_map(), input_id) == Some(self.dict@[i].id));
            }
            Ok(mapped_id)
        } else {
            proof {
                reveal_strlit("No Such parameter");
            }
            Err(String::from_str("No Such parameter"))
        }
    }

    /// The event in the dictionary's id space made of `ine`: pairs whose
    /// id is not mapped are dropped.
    pub fn map_event(&self, ine: &Event) -> (r: Event)
        ensures
            r@ == mapped_event(self.spec_map(), ine@),
    {
        let mut result: Event = Vec::new();
        let mut i: usize = 0;
        while i < ine.len()
            invariant
                i <= ine@.len(),
                result@ == mapped_event(self.spec_map(), ine@.take(i as int)),
            decreases ine@.len() - i,
        {
            let p = ine[i];
            proof {
                assert(ine@.take(i as int + 1).drop_last() =~= ine@.take(i as int));
            }
            if let Some(id) = self.get_mapping(p.id) {
                result.push(EventParameter::new(id, p.value));
            }
            i = i + 1;
        }
        proof {
            assert(ine@.take(ine@.len() as int) =~= ine@);
        }
        result
    }
}

/// The value the last pair with id `id` in `e` gives it, if any.
pub open spec fn last_value(e: Seq<EventParameter>, id: u32) -> Option<u64>
    decreases e.len(),
{
    if e.len() == 0 {
        None
    } else if e.last().id == id {
        Some(e.last().value)
    } else {
        last_value(e.drop_last(), id)
    }
}

/// The generation that last set a flattened parameter and the value it set.
#[derive(Clone, Copy)]
pub struct EventParameterInfo {
    last_set: u64,
    returned_value: Option<u64>,
}

impl EventParameterInfo {
    /// The generation that last set this slot.
    pub closed spec fn spec_last_set(&self) -> u64 {
        self.last_set
    }

    /// The value last set.
    pub closed spec fn spec_value(&self) -> Option<u64> {
        self.returned_value
    }

    /// A slot stamped with generation `gen` that holds no value (the value
    /// is not kept).
    pub fn new(gen: u64, value: u64) -> (r: EventParameterInfo)
        ensures
            r.spec_last_set() == gen,
            r.spec_value() == None::<u64>,
    {
        EventParameterInfo { last_set: gen, returned_value: None }
    }

    /// Sets the value for generation `gen`.
    pub fn set(&mut self, gen: u64, value: u64)
        ensures
            final(self).spec_last_set() == gen,
            final(self).spec_value() == Some(value),
    {
        self.last_set = gen;
        self.returned_value = Some(value);
    }

    /// The value, if it was set by generation `gen`.
    pub fn get(&self, gen: u64) -> (r: Option<u64>)
        ensures
            r == if self.spec_last_set() == gen {
                self.spec_value()
            } else {
                None
            },
    {
        if self.last_set == gen {
            self.returned_value
        } else {
            None
        }
    }
}

/// An event indexed by parameter id.  Loading an event starts a new
/// generation, which makes every value of earlier events disappear at once.
pub struct FlatEvent {
    generation: u64,
    event: Vec<EventParameterInfo>,
}

impl FlatEvent {
    /// The current generation.
    pub closed spec fn spec_generation(&self) -> u64 {
        self.generation
    }

    /// No slot is stamped with a later generation than the current one.
    pub closed spec fn wf(&self) -> bool {
        forall|i: int| 0 <= i < self.event@.len() ==> #[trigger] self.event@[i].last_set <= self.generation
    }

    /// The value of parameter `id` in the current event.
    pub closed spec fn value(&self, id: u32) -> Option<u64> {
        if id < self.event@.len() && self.event@[id as int].last_set == self.generation {
            self.event@[id as int].returned_value
        } else {
            None
        }
    }

    /// An empty flattened event: no parameter has a value.
    pub fn new() -> (r: FlatEvent)
        ensures
            r.wf(),
            r.spec_generation() == 0,
            forall|id: u32| #[trigger] r.value(id) == None::<u64>,
    {
        FlatEvent { generation: 0, event: Vec::new() }
    }

    /// The number of events loaded so far.
    pub fn generation(&self) -> (r: u64)
        ensures
            r == self.spec_generation(),
    {
        self.generation
    }

    fn ensure_size(&mut self, required: usize)
        requires
            old(self).wf(),
            old(self).spec_generation() > 0,
        ensures
            final(self).wf(),
            final(self).spec_generation() == old(self).spec_generation(),
            final(self).event@.len() >= required,
            forall|id: u32| #[trigger] final(self).value(id) == old(self).value(id),
    {
        if required > self.event.len() {
            self.event.resize(required, EventParameterInfo::new(0, 0));
            proof {
                assert forall|id: u32| #[trigger] self.value(id) == old(self).value(id) by {
                    if id < self.event@.len() && id >= old(self).event@.len() {
                        assert(self.event@[id as int].last_set == 0);
                    }
                    if id < old(self).event@.len() {
                        assert(self.event@[id as int] == old(self).event@[id as int]);
                    }
                }
                assert forall|i: int| 0 <= i < self.event@.len() implies #[trigger] self.event@[i].last_set
                    <= self.generation by {
                    if i < old(self).event@.len() {
                        assert(self.event@[i] == old(self).event@[i]);
                    }
                }
            }
        }
    }

    /// Loads an event.  Afterwards each parameter has the value that the
    /// last pair with its id gives it, and no value if the event has none.
    pub fn load_event(&mut self, e: &Event)
        requires
            old(self).wf(),
            old(self).spec_generation() < u64::MAX,
            forall|i: int| 0 <= i < e@.len() ==> #[trigger] e@[i].id < usize::MAX,
        ensures
            final(self).wf(),
            final(self).spec_generation() == old(self).spec_generation() + 1,
            forall|id: u32| #[trigger] final(self).value(id) == last_value(e@, id),
    {
        self.generation = self.generation + 1;
        proof {
            assert forall|id: u32| #[trigger] self.value(id) == None::<u64> by {
                if id < self.event@.len() {
                    assert(self.event@[id as int].last_set <= old(self).generation);
                }
            }
            assert(e@.take(0) =~= Seq::<EventParameter>::empty());
        }
        let mut i: usize = 0;
        while i < e.len()
            invariant
                i <= e@.len(),
                forall|j: int| 0 <= j < e@.len() ==> #[trigger] e@[j].id < usize::MAX,
                self.wf(),
                self.spec_generation() == old(self).spec_generation() + 1,
                forall|id: u32| #[trigger] self.value(id) == last_value(e@.take(i as int), id),
            decreases e@.len() - i,
        {
            let p = e[i];
            let id = p.id as usize;
            self.ensure_size(id + 1);
            let mut slot = self.event[id];
            slot.set(self.generation, p.value);
            let ghost before = *self;
            self.event.set(id, slot);
            proof {
                assert(e@.take(i as int + 1).drop_last() =~= e@.take(i as int));
                assert forall|k: u32| #[trigger] self.value(k) == last_value(e@.take(i as int + 1), k) by {
                    if k != p.id {
                        assert(before.value(k) == self.value(k));
                    }
                }
            }
            i = i + 1;
        }
        proof {
            assert(e@.take(e@.len() as int) =~= e@);
        }
    }

    /// The value of parameter `id` in the current event, `None` when the
    /// event does not set it.
    pub fn get_parameter(&self, id: u32) -> (r: Option<u64>)
        ensures
            r == self.value(id),
    {
        let i = id as usize;
        if i < self.event.len() {
            self.event[i].get(self.generation)
        } else {
            None
        }
    }
}

/// The id a dictionary hands out next is not in use: ids are never given
/// twice.
pub proof fn law_next_id_is_fresh(d: ParameterDictionary)
    requires
        d.wf(),
    ensures
        !has_id(d@, d.spec_next_id()),
{
    if has_id(d@, d.spec_next_id()) {
        let i = choose|i: int| 0 <= i < d@.len() && #[trigger] d@[i].id == d.spec_next_id();
        assert(d@[i].id < d.spec_next_id());
    }
}

/// Each pair of a mapped event comes from a pair of the input event whose
/// id maps onto the pair's id, and carries that pair's value.
pub proof fn law_mapped_pairs_come_from_input(map: Seq<Option<u32>>, ine: Seq<EventParameter>)
    ensures
        forall|k: int|
            0 <= k < mapped_event(map, ine).len() ==> exists|j: int|
                0 <= j < ine.len() && mapping_of(map, ine[j].id) == Some(#[trigger] mapped_event(map, ine)[k].id)
                    && ine[j].value == mapped_event(map, ine)[k].value,
    decreases ine.len(),
{
    if ine.len() > 0 {
        let rest = ine.drop_last();
        law_mapped_pairs_come_from_input(map, rest);
        let out = mapped_event(map, ine);
        let rout = mapped_event(map, rest);
        assert forall|k: int| 0 <= k < out.len() implies exists|j: int|
            0 <= j < ine.len() && mapping_of(map, ine[j].id) == Some(#[trigger] out[k].id) && ine[j].value
                == out[k].value by {
            if k < rout.len() {
                assert(out[k] == rout[k]);
                let j = choose|j: int|
                    0 <= j < rest.len() && mapping_of(map, rest[j].id) == Some(#[trigger] rout[k].id) && rest[j].value
                        == rout[k].value;
                assert(ine[j] == rest[j]);
            } else {
                let j = ine.len() - 1;
                assert(ine[j] == ine.last());
            }
        }
    }
}

/// Mapping an event maps its pairs one at a time: the mapped event of two
/// events one after the other is the mapped first followed by the mapped
/// second.
pub proof fn law_mapping_is_pairwise(map: Seq<Option<u32>>, a: Seq<EventParameter>, b: Seq<EventParameter>)
    ensures
        mapped_event(map, a + b) == mapped_event(map, a) + mapped_event(map, b),
    decreases b.len(),
{
    if b.len() == 0 {
        assert(a + b =~= a);
        assert(mapped_event(map, a) + mapped_event(map, b) =~= mapped_event(map, a));
    } else {
        let b0 = b.drop_last();
        law_mapping_is_pairwise(map, a, b0);
        assert((a + b).drop_last() =~= a + b0);
        assert((a + b).last() == b.last());
        let p = b.last();
        if p.id < map.len() && map[p.id as int] is Some {
            assert(mapped_event(map, a + b) =~= mapped_event(map, a) + mapped_event(map, b));
        } else {
            assert(mapped_event(map, a + b) =~= mapped_event(map, a) + mapped_event(map, b));
        }
    }
}

/// A pair whose id is mapped is kept, with the mapped id and its own value
/// (whatever the value is); a pair whose id is not mapped is dropped.
pub proof fn law_mapped_pair_is_kept(map: Seq<Option<u32>>, p: EventParameter)
    ensures
        mapped_event(map, seq![p]) == match mapping_of(map, p.id) {
            Some(m) => seq![EventParameter { id: m, value: p.value }],
            None => Seq::<EventParameter>::empty(),
        },
{
    assert(seq![p].drop_last() =~= Seq::<EventParameter>::empty());
    assert(mapped_event(map, Seq::<EventParameter>::empty()) == Seq::<EventParameter>::empty());
    assert(seq![p].len() == 1 && seq![p].last() == p);
    assert(mapped_event(map, seq![p]) =~= match mapping_of(map, p.id) {
        Some(m) => seq![EventParameter { id: m, value: p.value }],
        None => Seq::<EventParameter>::empty(),
    });
}

} // verus!
