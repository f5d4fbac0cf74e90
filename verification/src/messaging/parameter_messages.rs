//! Requests and replies of the parameter part of the histogrammer, the
//! processor that serves them with a parameter dictionary, and the client
//! functions that make the requests.
//!
//! * `Create` - creates a new parameter.
//! * `List` - lists the parameters whose names match a glob pattern.
//! * `SetMetaData` - modifies the metadata of a parameter.
//!
//! Parameters can be modified but never deleted.
use vstd::prelude::*;
use crate::glob_pattern::{GlobPattern, glob_compile_error, glob_matches};
use crate::messaging::{MessageType, Reply, Request};
use std::sync::mpsc::{Receiver, Sender};
use crate::parameters::{
    Parameter,
    ParameterDictionary,
    ParameterView,
    bare_parameter,
    has_name,
    parameter_views,
};

verus! {

/// A request of the parameter part of the histogrammer.
#[derive(Clone, Debug, PartialEq)]
pub enum ParameterRequest {
    Create(String),
    List(String),
    SetMetaData {
        name: String,
        bins: Option<u32>,
        limits: Option<(u64, u64)>,
        units: Option<String>,
        description: Option<String>,
    },
}

/// A reply of the parameter part of the histogrammer.
#[derive(Clone, Debug, PartialEq)]
pub enum ParameterReply {
    Error(String),
    Created,
    Listing(Vec<Parameter>),
    Modified,
}

/// Result of a request that gives nothing back on success.
pub type ParameterResult = Result<(), String>;

/// Result of a list request.
pub type ListResult = Result<Vec<Parameter>, String>;

/// The parameters of `ps`, in order, whose names match the glob `pattern`.
pub open spec fn matching_parameters(ps: Seq<ParameterView>, pattern: Seq<char>) -> Seq<ParameterView>
    decreases ps.len(),
{
    if ps.len() == 0 {
        Seq::empty()
    } else {
        let rest = matching_parameters(ps.drop_last(), pattern);
        if glob_matches(pattern, ps.last().name) {
            rest.push(ps.last())
        } else {
            rest
        }
    }
}

/// The metadata of `p` after a modification request.
pub open spec fn modified_parameter(
    p: ParameterView,
    bins: Option<u32>,
    limits: Option<(u64, u64)>,
    units: Option<Seq<char>>,
    description: Option<Seq<char>>,
) -> ParameterView {
    ParameterView {
        name: p.name,
        id: p.id,
        low: match limits {
            Some(l) => Some(l.0),
            None => p.low,
        },
        high: match limits {
            Some(l) => Some(l.1),
            None => p.high,
        },
        bins: match bins {
            Some(b) => Some(b),
            None => p.bins,
        },
        units: match units {
            Some(u) => Some(u),
            None => p.units,
        },
        description: match description {
            Some(d) => Some(d),
            None => p.description,
        },
    }
}

/// What serving `req` does: `old_p` becomes `new_p` and the answer is
/// `reply`.
pub open spec fn parameter_request_served(
    old_p: ParameterProcessor,
    req: ParameterRequest,
    new_p: ParameterProcessor,
    reply: ParameterReply,
) -> bool {
    &&& (req matches ParameterRequest::Create(name) ==> {
            &&& old_p.spec_dict().spec_next_id() == u32::MAX ==> reply is Error && new_p == old_p
            &&& old_p.spec_dict().spec_next_id() < u32::MAX && has_name(old_p.spec_dict()@, name@) ==> {
                &&& reply matches ParameterReply::Error(e) && e@ == "Duplicate parameter"@
                &&& new_p.spec_dict()@ == old_p.spec_dict()@
            }
            &&& old_p.spec_dict().spec_next_id() < u32::MAX && !has_name(old_p.spec_dict()@, name@)
                ==> {
                &&& reply is Created
                &&& new_p.spec_dict()@ == old_p.spec_dict()@.push(
                    bare_parameter(name@, old_p.spec_dict().spec_next_id()),
                )
                &&& new_p.spec_dict().spec_next_id() == old_p.spec_dict().spec_next_id() + 1
            }
        })
    &&& (req matches ParameterRequest::List(pattern) ==> {
            &&& new_p == old_p
            &&& glob_compile_error(pattern@) matches Some(m) ==> (reply matches ParameterReply::Error(e) && e@ == m)
            &&& glob_compile_error(pattern@) is None ==> (reply matches ParameterReply::Listing(v) && parameter_views(
                v@,
            ) == matching_parameters(old_p.spec_dict()@, pattern@))
        })
    &&& (req matches ParameterRequest::SetMetaData { name, bins, limits, units, description } ==> {
            &&& new_p.spec_dict().spec_next_id() == old_p.spec_dict().spec_next_id()
            &&& !has_name(old_p.spec_dict()@, name@) ==> {
                &&& reply matches ParameterReply::Error(e) && e@ == "Parameter "@ + name@ + " does not exist"@
                &&& new_p.spec_dict()@ == old_p.spec_dict()@
            }
            &&& has_name(old_p.spec_dict()@, name@) ==> {
                &&& reply is Modified
                &&& exists|i: int|
                    0 <= i < old_p.spec_dict()@.len() && old_p.spec_dict()@[i].name == name@
                        && new_p.spec_dict()@ == old_p.spec_dict()@.update(
                        i,
                        modified_parameter(
                            old_p.spec_dict()@[i],
                            bins,
                            limits,
                            crate::parameters::opt_string_view(units),
                            crate::parameters::opt_string_view(description),
                        ),
                    )
            }
        })
}

/// The processor of parameter requests: it owns the parameter dictionary.
pub struct ParameterProcessor {
    dict: ParameterDictionary,
}

impl ParameterProcessor {
    /// The dictionary.
    pub closed spec fn spec_dict(&self) -> ParameterDictionary {
        self.dict
    }

    /// The dictionary is well formed.
    pub open spec fn wf(&self) -> bool {
        self.spec_dict().wf()
    }

    /// A processor with an empty dictionary.
    pub fn new() -> (r: ParameterProcessor)
        ensures
            r.wf(),
            r.spec_dict()@ == Seq::<ParameterView>::empty(),
            r.spec_dict().spec_next_id() == 1,
    {
        ParameterProcessor { dict: ParameterDictionary::new() }
    }

    /// The dictionary.
    pub fn get_dict(&self) -> (r: &ParameterDictionary)
        ensures
            *r == self.spec_dict(),
    {
        &self.dict
    }

    fn create(&mut self, name: &str) -> (r: ParameterReply)
        requires
            old(self).wf(),
        ensures
            final(self).wf(),
            old(self).spec_dict().spec_next_id() == u32::MAX ==> {
                &&& r matches ParameterReply::Error(e) && e@ == "Parameter ids are exhausted"@
                &&& *final(self) == *old(self)
            },
            old(self).spec_dict().spec_next_id() < u32::MAX ==> {
                &&& has_name(old(self).spec_dict()@, name@) ==> {
                    &&& r matches ParameterReply::Error(e) && e@ == "Duplicate parameter"@
                    &&& final(self).spec_dict()@ == old(self).spec_dict()@
                    &&& final(self).spec_dict().spec_next_id() == old(self).spec_dict().spec_next_id()
                }
                &&& !has_name(old(self).spec_dict()@, name@) ==> {
                    &&& r is Created
                    &&& final(self).spec_dict()@ == old(self).spec_dict()@.push(
                        bare_parameter(name@, old(self).spec_dict().spec_next_id()),
                    )
                    &&& final(self).spec_dict().spec_next_id() == old(self).spec_dict().spec_next_id() + 1
                }
            },
    {
        if self.dict.next_id() == u32::MAX {
            proof {
                reveal_strlit("Parameter ids are exhausted");
            }
            return ParameterReply::Error(String::from_str("Parameter ids are exhausted"));
        }
        match self.dict.add(name) {
            Err(s) => ParameterReply::Error(s),
            Ok(_) => ParameterReply::Created,
        }
    }

    fn list(&self, pattern: &str) -> (r: ParameterReply)
        requires
            self.wf(),
        ensures
            glob_compile_error(pattern@) matches Some(m) ==> (r matches ParameterReply::Error(e) && e@ == m),
            glob_compile_error(pattern@) is None ==> (r matches ParameterReply::Listing(v) && parameter_views(v@)
                == matching_parameters(self.spec_dict()@, pattern@)),
    {
        match GlobPattern::new(pattern) {
            Err(m) => ParameterReply::Error(m),
            Ok(pat) => {
                let params = self.dict.iter();
                let mut result: Vec<Parameter> = Vec::new();
                let mut i: usize = 0;
                while i < params.len()
                    invariant
                        i <= params@.len(),
                        parameter_views(params@) == self.spec_dict()@,
                        pat.spec_text() == pattern@,
                        parameter_views(result@) == matching_parameters(parameter_views(params@).take(i as int), pattern@),
                    decreases params@.len() - i,
                {
                    let p = &params[i];
                    let name = p.get_name();
                    proof {
                        assert(parameter_views(params@).take(i as int + 1).drop_last() =~= parameter_views(
                            params@,
                        ).take(i as int));
                        assert(parameter_views(params@)[i as int] == p@);
                    }
                    if pat.matches(name.as_str()) {
                        let ghost before = result@;
                        result.push(p.duplicate());
                        proof {
                            assert(parameter_views(result@) =~= parameter_views(before).push(p@));
                        }
                    }
                    i = i + 1;
                }
                proof {
                    assert(parameter_views(params@).take(params@.len() as int) =~= parameter_views(params@));
                }
                ParameterReply::Listing(result)
            },
        }
    }

    fn modify(
        &mut self,
        name: &str,
        bins: Option<u32>,
        limits: Option<(u64, u64)>,
        units: Option<String>,
        desc: Option<String>,
    ) -> (r: ParameterReply)
        requires
            old(self).wf(),
        ensures
            final(self).wf(),
            final(self).spec_dict().spec_next_id() == old(self).spec_dict().spec_next_id(),
            !has_name(old(self).spec_dict()@, name@) ==> {
                &&& r matches ParameterReply::Error(e) && e@ == "Parameter "@ + name@ + " does not exist"@
                &&& final(self).spec_dict()@ == old(self).spec_dict()@
            },
            has_name(old(self).spec_dict()@, name@) ==> {
                &&& r is Modified
                &&& exists|i: int|
                    0 <= i < old(self).spec_dict()@.len() && old(self).spec_dict()@[i].name == name@
                        && final(self).spec_dict()@ == old(self).spec_dict()@.update(
                        i,
                        modified_parameter(
                            old(self).spec_dict()@[i],
                            bins,
                            limits,
                            crate::parameters::opt_string_view(units),
                            crate::parameters::opt_string_view(desc),
                        ),
                    )
            },
    {
        let ghost d0 = self.dict;
        match self.dict.lookup_mut(name) {
            Some(p) => {
                let ghost p0 = *p;
                match bins {
                    Some(b) => {
                        p.set_bins(b);
                    },
                    None => {},
                }
                match limits {
                    Some(l) => {
                        p.set_limits(l.0, l.1);
                    },
                    None => {},
                }
                match &units {
                    Some(u) => {
                        p.set_units(u.as_str());
                    },
                    None => {},
                }
                match &desc {
                    Some(d) => {
                        p.set_description(d.as_str());
                    },
                    None => {},
                }
                proof {
                    assert(p@ == modified_parameter(
                        p0@,
                        bins,
                        limits,
                        crate::parameters::opt_string_view(units),
                        crate::parameters::opt_string_view(desc),
                    ));
                }
                let ghost p1 = *p;
                proof {
                    let i = choose|i: int|
                        0 <= i < d0@.len() && {
                            &&& d0@[i].name == name@
                            &&& p0@ == d0@[i]
                            &&& self.dict@ == d0@.update(i, p1@)
                            &&& self.dict.spec_next_id() == d0.spec_next_id()
                        };
                    d0.lemma_update_keeps_wf(&self.dict, i);
                }
                ParameterReply::Modified
            },
            None => {
                proof {
                    reveal_strlit("Parameter ");
                    reveal_strlit(" does not exist");
                }
                let msg = String::from_str("Parameter ").concat(name).concat(" does not exist");
                ParameterReply::Error(msg)
            },
        }
    }

    /// Serves a request.
    ///
    /// * `Create(name)`: `Created`, or `Error("Duplicate parameter")` when
    ///   the name is taken (or an error when no id is left).
    /// * `List(pattern)`: `Listing` of the parameters whose names match, in
    ///   order of creation, or `Error` with the glob crate's message for a bad
    ///   pattern.
    /// * `SetMetaData{..}`: sets the metadata given as `Some` and answers
    ///   `Modified`, or `Error("Parameter <name> does not exist")`.
    pub fn process_request(&mut self, req: ParameterRequest) -> (r: ParameterReply)
        requires
            old(self).wf(),
        ensures
            final(self).wf(),
            parameter_request_served(*old(self), req, *final(self), r),
    {
        match req {
            ParameterRequest::Create(name) => self.create(name.as_str()),
            ParameterRequest::List(pattern) => self.list(pattern.as_str()),
            ParameterRequest::SetMetaData { name, bins, limits, units, description } => self.modify(
                name.as_str(),
                bins,
                limits,
                units,
                description,
            ),
        }
    }
}

/// The view of a result whose error is a string.
pub open spec fn result_view<T>(r: Result<T, String>) -> Result<T, Seq<char>> {
    match r {
        Ok(v) => Ok(v),
        Err(e) => Err(e@),
    }
}

/// The request that creates the parameter `name`.
pub fn make_create_request(name: &str) -> (r: MessageType)
    ensures
        r matches MessageType::Parameter(ParameterRequest::Create(n)) && n@ == name@,
{
    MessageType::Parameter(ParameterRequest::Create(String::from_str(name)))
}

/// The request that lists the parameters matching `pattern`.
pub fn make_list_request(pattern: &str) -> (r: MessageType)
    ensures
        r matches MessageType::Parameter(ParameterRequest::List(p)) && p@ == pattern@,
{
    MessageType::Parameter(ParameterRequest::List(String::from_str(pattern)))
}

/// The request that modifies the metadata of the parameter `name`.
pub fn make_modify_request(
    name: &str,
    bins: Option<u32>,
    limits: Option<(u64, u64)>,
    units: Option<String>,
    description: Option<String>,
) -> (r: MessageType)
    ensures
        r matches MessageType::Parameter(ParameterRequest::SetMetaData { name: n, bins: b, limits: l, units: u, description: d })
            && n@ == name@ && b == bins && l == limits && u == units && d == description,
{
    MessageType::Parameter(ParameterRequest::SetMetaData { name: String::from_str(name), bins, limits, units, description })
}

/// What a create request makes of the reply.
pub open spec fn create_outcome(reply: Reply) -> Result<(), Seq<char>> {
    match reply {
        Reply::Parameter(ParameterReply::Error(s)) => Err(s@),
        Reply::Parameter(ParameterReply::Created) => Ok(()),
        Reply::Parameter(ParameterReply::Listing(_)) => Err("BUG!! Create got a Listing reply"@),
        Reply::Parameter(ParameterReply::Modified) => Err("BUG!! Create got a Modified reply"@),
        _ => Err("BUG!!! : Invalid reply type from histogramer"@),
    }
}

/// What a list request makes of the reply: the listed parameters on
/// success.
pub open spec fn list_outcome(reply: Reply) -> Result<Seq<ParameterView>, Seq<char>> {
    match reply {
        Reply::Parameter(ParameterReply::Listing(v)) => Ok(parameter_views(v@)),
        Reply::Parameter(_) => Err("Bug: Invalid histogram Parameter response to Parmeter::SetMetadata request"@),
        _ => Err("BUG!!! : Invalid reply type from histogramer"@),
    }
}

/// What a modify request makes of the reply.
pub open spec fn modify_outcome(reply: Reply) -> Result<(), Seq<char>> {
    match reply {
        Reply::Parameter(ParameterReply::Modified) => Ok(()),
        Reply::Parameter(_) => Err("Bug: Invalid histogram Parameter response to Parmeter::Modify request"@),
        _ => Err("BUG!!! : Invalid reply type from histogramer"@),
    }
}

/// `r` is what a list request makes of `reply`.
pub open spec fn list_gives(r: ListResult, reply: Reply) -> bool {
    match r {
        Ok(v) => list_outcome(reply) == Ok::<Seq<ParameterView>, Seq<char>>(parameter_views(v@)),
        Err(e) => list_outcome(reply) == Err::<Seq<ParameterView>, Seq<char>>(e@),
    }
}

/// The result a create request gives for `reply`.
pub fn create_result(reply: Reply) -> (r: ParameterResult)
    ensures
        result_view(r) == create_outcome(reply),
{
    proof {
        reveal_strlit("BUG!! Create got a Listing reply");
        reveal_strlit("BUG!! Create got a Modified reply");
        reveal_strlit("BUG!!! : Invalid reply type from histogramer");
    }
    match reply {
        Reply::Parameter(ParameterReply::Error(s)) => Err(s),
        Reply::Parameter(ParameterReply::Created) => Ok(()),
        Reply::Parameter(ParameterReply::Listing(_)) => Err(String::from_str("BUG!! Create got a Listing reply")),
        Reply::Parameter(ParameterReply::Modified) => Err(String::from_str("BUG!! Create got a Modified reply")),
        _ => Err(String::from_str("BUG!!! : Invalid reply type from histogramer")),
    }
}

/// The result a list request gives for `reply`.
pub fn list_result(reply: Reply) -> (r: ListResult)
    ensures
        list_gives(r, reply),
{
    proof {
        reveal_strlit("Bug: Invalid histogram Parameter response to Parmeter::SetMetadata request");
        reveal_strlit("BUG!!! : Invalid reply type from histogramer");
    }
    match reply {
        Reply::Parameter(ParameterReply::Listing(v)) => Ok(v),
        Reply::Parameter(_) => Err(
            String::from_str("Bug: Invalid histogram Parameter response to Parmeter::SetMetadata request"),
        ),
        _ => Err(String::from_str("BUG!!! : Invalid reply type from histogramer")),
    }
}

/// The result a modify request gives for `reply`.
pub fn modify_result(reply: Reply) -> (r: ParameterResult)
    ensures
        result_view(r) == modify_outcome(reply),
{
    proof {
        reveal_strlit("Bug: Invalid histogram Parameter response to Parmeter::Modify request");
        reveal_strlit("BUG!!! : Invalid reply type from histogramer");
    }
    match reply {
        Reply::Parameter(ParameterReply::Modified) => Ok(()),
        Reply::Parameter(_) => Err(String::from_str("Bug: Invalid histogram Parameter response to Parmeter::Modify request")),
        _ => Err(String::from_str("BUG!!! : Invalid reply type from histogramer")),
    }
}

/// A failure of the channels of a transaction.
pub open spec fn transport_error(e: Seq<char>) -> bool {
    e == "Send to histogramer failed!"@ || e == "Read of reply from histogramer failed!"@
}

/// Asks the histogrammer (along `req_chan`, reply on `rep_send`, read from
/// `rep_rcv`) to create the parameter `name`.
pub fn create_parameter(
    req_chan: Sender<Request>,
    rep_send: Sender<Reply>,
    rep_rcv: Receiver<Reply>,
    name: &str,
) -> (r: ParameterResult)
    ensures
        (r matches Err(e) && transport_error(e@)) || exists|reply: Reply| result_view(r) == create_outcome(reply),
{
    let req = Request::new(rep_send, make_create_request(name));
    match req.transaction(&req_chan, &rep_rcv) {
        Ok(reply) => create_result(reply),
        Err(e) => Err(e),
    }
}

/// Asks the histogrammer for the parameters whose names match `pattern`.
pub fn list_parameters(
    req_chan: Sender<Request>,
    rep_send: Sender<Reply>,
    rep_rcv: Receiver<Reply>,
    pattern: &str,
) -> (r: ListResult)
    ensures
        (r matches Err(e) && transport_error(e@)) || exists|reply: Reply| #[trigger] list_gives(r, reply),
{
    let req = Request::new(rep_send, make_list_request(pattern));
    match req.transaction(&req_chan, &rep_rcv) {
        Ok(reply) => list_result(reply),
        Err(e) => Err(e),
    }
}

/// Asks the histogrammer to modify the metadata given as `Some` of the
/// parameter `name`.
pub fn modify_parameter_metadata(
    req_chan: Sender<Request>,
    rep_send: Sender<Reply>,
    rep_rcv: Receiver<Reply>,
    name: &str,
    bins: Option<u32>,
    limits: Option<(u64, u64)>,
    units: Option<String>,
    description: Option<String>,
) -> (r: ParameterResult)
    ensures
        (r matches Err(e) && transport_error(e@)) || exists|reply: Reply| result_view(r) == modify_outcome(reply),
{
    let req = Request::new(rep_send, make_modify_request(name, bins, limits, units, description));
    match req.transaction(&req_chan, &rep_rcv) {
        Ok(reply) => modify_result(reply),
        Err(e) => Err(e),
    }
}

/// Parameters are permanent: whatever request is served, every parameter
/// keeps its place, its name and its id.
pub proof fn law_parameters_are_permanent(
    old_p: ParameterProcessor,
    req: ParameterRequest,
    new_p: ParameterProcessor,
    reply: ParameterReply,
)
    requires
        old_p.wf(),
        parameter_request_served(old_p, req, new_p, reply),
    ensures
        old_p.spec_dict()@.len() <= new_p.spec_dict()@.len(),
        forall|i: int|
            0 <= i < old_p.spec_dict()@.len() ==> #[trigger] new_p.spec_dict()@[i].name == old_p.spec_dict()@[i].name
                && new_p.spec_dict()@[i].id == old_p.spec_dict()@[i].id,
{
    let d0 = old_p.spec_dict()@;
    let d1 = new_p.spec_dict()@;
    match req {
        ParameterRequest::SetMetaData { name, bins, limits, units, description } => {
            if has_name(d0, name@) {
                let k = choose|k: int|
                    0 <= k < d0.len() && d0[k].name == name@ && d1 == d0.update(
                        k,
                        modified_parameter(
                            d0[k],
                            bins,
                            limits,
                            crate::parameters::opt_string_view(units),
                            crate::parameters::opt_string_view(description),
                        ),
                    );
                assert forall|i: int| 0 <= i < d0.len() implies #[trigger] d1[i].name == d0[i].name && d1[i].id == d0[i].id by {
                    if i == k {
                    }
                }
            }
        },
        _ => {},
    }
}

/// A parameter just created appears, with the id it was given, in the
/// listing of every valid pattern its name matches.
pub proof fn law_created_parameter_is_listed(
    p0: ParameterProcessor,
    name: String,
    p1: ParameterProcessor,
    pattern: String,
    p2: ParameterProcessor,
    listing: ParameterReply,
)
    requires
        p0.wf(),
        parameter_request_served(p0, ParameterRequest::Create(name), p1, ParameterReply::Created),
        parameter_request_served(p1, ParameterRequest::List(pattern), p2, listing),
        glob_compile_error(pattern@) is None,
        glob_matches(pattern@, name@),
    ensures
        listing matches ParameterReply::Listing(v) && parameter_views(v@).contains(
            bare_parameter(name@, p0.spec_dict().spec_next_id()),
        ),
{
    let x = bare_parameter(name@, p0.spec_dict().spec_next_id());
    let ps = p1.spec_dict()@;
    assert(ps == p0.spec_dict()@.push(x));
    assert(ps.last() == x);
    assert(ps.drop_last() == p0.spec_dict()@);
    let m = matching_parameters(ps, pattern@);
    assert(m == matching_parameters(ps.drop_last(), pattern@).push(x));
    assert(m[m.len() - 1] == x);
}

proof fn lemma_matching_contains(ps: Seq<ParameterView>, pattern: Seq<char>, i: int)
    requires
        0 <= i < ps.len(),
        glob_matches(pattern, ps[i].name),
    ensures
        matching_parameters(ps, pattern).contains(ps[i]),
    decreases ps.len(),
{
    let m = matching_parameters(ps, pattern);
    if i == ps.len() - 1 {
        assert(m[m.len() - 1] == ps[i]);
    } else {
        lemma_matching_contains(ps.drop_last(), pattern, i);
        let rest = matching_parameters(ps.drop_last(), pattern);
        assert(ps.drop_last()[i] == ps[i]);
        let k = choose|k: int| 0 <= k < rest.len() && rest[k] == ps[i];
        assert(m[k] == ps[i]);
    }
}

/// What is modified is listed: after the metadata of a parameter is
/// modified, listing any valid pattern its name matches shows the
/// parameter with the new metadata (and what was not given unchanged).
pub proof fn law_modified_parameter_is_listed(
    p0: ParameterProcessor,
    name: String,
    bins: Option<u32>,
    limits: Option<(u64, u64)>,
    units: Option<String>,
    description: Option<String>,
    p1: ParameterProcessor,
    pattern: String,
    p2: ParameterProcessor,
    listing: ParameterReply,
)
    requires
        p0.wf(),
        has_name(p0.spec_dict()@, name@),
        parameter_request_served(
            p0,
            ParameterRequest::SetMetaData { name, bins, limits, units, description },
            p1,
            ParameterReply::Modified,
        ),
        parameter_request_served(p1, ParameterRequest::List(pattern), p2, listing),
        glob_compile_error(pattern@) is None,
        glob_matches(pattern@, name@),
    ensures
        listing matches ParameterReply::Listing(v) && exists|i: int|
            0 <= i < p0.spec_dict()@.len() && p0.spec_dict()@[i].name == name@ && parameter_views(v@).contains(
                modified_parameter(
                    p0.spec_dict()@[i],
                    bins,
                    limits,
                    crate::parameters::opt_string_view(units),
                    crate::parameters::opt_string_view(description),
                ),
            ),
{
    let d0 = p0.spec_dict()@;
    let u = crate::parameters::opt_string_view(units);
    let ds = crate::parameters::opt_string_view(description);
    let i = choose|i: int|
        0 <= i < d0.len() && d0[i].name == name@ && p1.spec_dict()@ == d0.update(
            i,
            modified_parameter(d0[i], bins, limits, u, ds),
        );
    let ps = p1.spec_dict()@;
    assert(ps[i] == modified_parameter(d0[i], bins, limits, u, ds));
    lemma_matching_contains(ps, pattern@, i);
}

/// Modifying metadata sets what is given and keeps the rest: the name and
/// id stay; given limits, bins, units or description replace the
/// parameter's; those not given are kept.
pub proof fn law_metadata_given_is_set(
    p: ParameterView,
    bins: Option<u32>,
    limits: Option<(u64, u64)>,
    units: Option<Seq<char>>,
    description: Option<Seq<char>>,
)
    ensures
        ({
            let q = modified_parameter(p, bins, limits, units, description);
            &&& q.name == p.name && q.id == p.id
            &&& units is Some ==> q.units == units
            &&& units is None ==> q.units == p.units
            &&& description is Some ==> q.description == description
            &&& description is None ==> q.description == p.description
            &&& bins is Some ==> q.bins == bins
            &&& bins is None ==> q.bins == p.bins
            &&& limits matches Some(l) ==> q.low == Some(l.0) && q.high == Some(l.1)
            &&& limits is None ==> q.low == p.low && q.high == p.high
        }),
{
}

} // verus!
