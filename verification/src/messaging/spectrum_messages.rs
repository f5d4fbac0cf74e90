//! Requests and replies of the spectrum part of the histogrammer, and the
//! client that makes the requests:
//!
//! * create and delete spectra of the various kinds,
//! * apply conditions to spectra (gate them) and remove them (ungate),
//! * clear spectra,
//! * hand events to the spectra for histogramming,
//! * get descriptions, contents, statistics and channels of spectra.
//!
//! Axis limits, coordinates and channel values are binary64 numbers carried
//! as their bit patterns.
use vstd::prelude::*;
use crate::messaging::condition_messages::copy_strings;
use crate::messaging::{MessageType, Reply, Request, clone_sender, new_channel};
use crate::parameters::{Event, EventParameter, event_views};
use crate::conditions::{Condition, ConditionDictionary, has_named, same_conditions, slot_caches};
use crate::glob_pattern::{GlobPattern, glob_compile_error, glob_matches};
use crate::parameters::{ParameterDictionary, ParameterView};
use crate::spectra::{
    Spectrum,
    SpectrumKind,
    SpectrumView,
    cleared,
    counted,
    loaded,
    contents_within,
    is_2d,
    locate,
    make_error,
    new_spectrum,
    opt_view,
    properties_of,
    spectrum_wf,
    strings_view,
};
use std::sync::mpsc::Sender;

verus! {

/// An axis of a spectrum: its limits and its number of bins.
#[derive(Clone, Copy, Debug, PartialEq, Eq)]
pub struct AxisSpecification {
    pub low: u64,
    pub high: u64,
    pub bins: u32,
}

/// The kind of a channel of a spectrum.
#[derive(Clone, Copy, Debug, PartialEq, Eq)]
pub enum ChannelType {
    Underflow,
    Overflow,
    Bin,
}

/// A channel of a spectrum: where it is and what it holds.
#[derive(Clone, Copy, Debug, PartialEq, Eq)]
pub struct Channel {
    pub chan_type: ChannelType,
    pub x: u64,
    pub y: u64,
    pub bin: usize,
    pub value: u64,
}

/// The non-empty channels of a spectrum.
pub type SpectrumContents = Vec<Channel>;

/// The description of a spectrum.
#[derive(Clone, Debug, PartialEq)]
pub struct SpectrumProperties {
    pub name: String,
    pub spectrum_type: String,
    pub xparams: Vec<String>,
    pub yparams: Vec<String>,
    pub xaxis: Option<AxisSpecification>,
    pub yaxis: Option<AxisSpecification>,
    pub gate: Option<String>,
}

/// Underflow and overflow counts: x underflows, y underflows, x
/// overflows, y overflows.
pub type SpectrumStatistics = (u32, u32, u32, u32);

/// A request of the spectrum part of the histogrammer.
#[derive(Clone, Debug, PartialEq)]
pub enum SpectrumRequest {
    Create1D { name: String, parameter: String, axis: AxisSpecification },
    CreateMulti1D { name: String, params: Vec<String>, axis: AxisSpecification },
    CreateMulti2D { name: String, params: Vec<String>, xaxis: AxisSpecification, yaxis: AxisSpecification },
    CreatePGamma {
        name: String,
        xparams: Vec<String>,
        yparams: Vec<String>,
        xaxis: AxisSpecification,
        yaxis: AxisSpecification,
    },
    CreateSummary { name: String, params: Vec<String>, yaxis: AxisSpecification },
    Create2D { name: String, xparam: String, yparam: String, xaxis: AxisSpecification, yaxis: AxisSpecification },
    Create2DSum {
        name: String,
        xparams: Vec<String>,
        yparams: Vec<String>,
        xaxis: AxisSpecification,
        yaxis: AxisSpecification,
    },
    Delete(String),
    List(String),
    Gate { spectrum: String, gate: String },
    Ungate(String),
    Clear(String),
    GetContents { name: String, xlow: u64, xhigh: u64, ylow: u64, yhigh: u64 },
    Events(Vec<Event>),
    GetStats(String),
    SetContents { name: String, contents: SpectrumContents },
    GetChan { name: String, xchan: i32, ychan: Option<i32> },
    SetChan { name: String, xchan: i32, ychan: Option<i32>, value: u64 },
    Fold { spectrum_name: String, condition_name: String },
    Unfold(String),
}

/// A reply of the spectrum part of the histogrammer.
#[derive(Debug, PartialEq)]
pub enum SpectrumReply {
    Error(String),
    Created,
    Deleted,
    Gated,
    Ungated,
    Cleared,
    Contents(SpectrumContents),
    Listing(Vec<SpectrumProperties>),
    Processed,
    Statistics(SpectrumStatistics),
    ChannelValue(u64),
    ChannelSet,
    Folded,
    Unfolded,
}

/// Result of a request that gives nothing back on success.
pub type SpectrumServerEmptyResult = Result<(), String>;

/// Result of a listing: the descriptions of the spectra.
pub type SpectrumServerListingResult = Result<Vec<SpectrumProperties>, String>;

/// Result of a request for contents.
pub type SpectrumServerContentsResult = Result<SpectrumContents, String>;

/// Result of a request for statistics.
pub type SpectrumServerStatisticsResult = Result<SpectrumStatistics, String>;

/// Result of a request for the value of a channel.
pub type SpectrumChannelResult = Result<u64, String>;

/// `a` and `b` hold the same strings.
pub open spec fn same_strings(a: Seq<String>, b: Seq<String>) -> bool {
    &&& a.len() == b.len()
    &&& forall|k: int| 0 <= k < a.len() ==> #[trigger] a[k]@ == b[k]@
}

fn copy_events(events: &[Event]) -> (r: Vec<Event>)
    ensures
        event_views(r@) == event_views(events@),
{
    let mut out: Vec<Event> = Vec::new();
    let mut i: usize = 0;
    while i < events.len()
        invariant
            i <= events@.len(),
            out@.len() == i,
            forall|k: int| 0 <= k < i ==> #[trigger] out@[k]@ == events@[k]@,
        decreases events@.len() - i,
    {
        let mut e: Event = Vec::new();
        let mut j: usize = 0;
        while j < events[i].len()
            invariant
                i < events@.len(),
                j <= events@[i as int]@.len(),
                e@ == events@[i as int]@.take(j as int),
            decreases events@[i as int]@.len() - j,
        {
            let p: EventParameter = events[i][j];
            e.push(p);
            j = j + 1;
            proof {
                assert(e@ =~= events@[i as int]@.take(j as int));
            }
        }
        proof {
            assert(e@ =~= events@[i as int]@);
        }
        out.push(e);
        i = i + 1;
    }
    proof {
        assert(event_views(out@) =~= event_views(events@));
    }
    out
}

/// The name a spectrum request is about (the new name of a creation, the
/// spectrum of the others); `None` for listing, clearing and events.
pub open spec fn request_name(req: SpectrumRequest) -> Option<Seq<char>> {
    match req {
        SpectrumRequest::Create1D { name, .. } => Some(name@),
        SpectrumRequest::CreateMulti1D { name, .. } => Some(name@),
        SpectrumRequest::CreateMulti2D { name, .. } => Some(name@),
        SpectrumRequest::CreatePGamma { name, .. } => Some(name@),
        SpectrumRequest::CreateSummary { name, .. } => Some(name@),
        SpectrumRequest::Create2D { name, .. } => Some(name@),
        SpectrumRequest::Create2DSum { name, .. } => Some(name@),
        SpectrumRequest::Delete(name) => Some(name@),
        SpectrumRequest::Gate { spectrum, .. } => Some(spectrum@),
        SpectrumRequest::Ungate(name) => Some(name@),
        SpectrumRequest::GetContents { name, .. } => Some(name@),
        SpectrumRequest::GetStats(name) => Some(name@),
        SpectrumRequest::SetContents { name, .. } => Some(name@),
        SpectrumRequest::GetChan { name, .. } => Some(name@),
        SpectrumRequest::SetChan { name, .. } => Some(name@),
        SpectrumRequest::Fold { spectrum_name, .. } => Some(spectrum_name@),
        SpectrumRequest::Unfold(name) => Some(name@),
        _ => None,
    }
}

/// Is `req` the creation of a spectrum?
pub open spec fn is_creation(req: SpectrumRequest) -> bool {
    ||| req is Create1D
    ||| req is CreateMulti1D
    ||| req is CreateMulti2D
    ||| req is CreatePGamma
    ||| req is CreateSummary
    ||| req is Create2D
    ||| req is Create2DSum
}

/// The spectra of `st` are well formed and have distinct names.
pub open spec fn store_wf(st: Seq<SpectrumView>) -> bool {
    &&& forall|i: int| 0 <= i < st.len() ==> #[trigger] spectrum_wf(st[i])
    &&& forall|i: int, j: int|
        0 <= i < st.len() && 0 <= j < st.len() && i != j ==> #[trigger] st[i].name != #[trigger] st[j].name
}

/// Some spectrum of `st` is named `n`.
pub open spec fn has_spectrum(st: Seq<SpectrumView>, n: Seq<char>) -> bool {
    exists|i: int| 0 <= i < st.len() && #[trigger] st[i].name == n
}

/// Spectrum `i` of `st` is named `n`.
pub open spec fn named_at(st: Seq<SpectrumView>, n: Seq<char>, i: int) -> bool {
    0 <= i < st.len() && st[i].name == n
}

/// The spectra of `st` whose names match the glob pattern `p`, in order,
/// among the first `n`.
pub open spec fn matching_upto(st: Seq<SpectrumView>, p: Seq<char>, n: int) -> Seq<SpectrumView>
    decreases n,
{
    if n <= 0 {
        Seq::empty()
    } else if glob_matches(p, st[n - 1].name) {
        matching_upto(st, p, n - 1).push(st[n - 1])
    } else {
        matching_upto(st, p, n - 1)
    }
}

/// `l` describes, in order, the spectra of `st` whose names match `p`.
pub open spec fn listing_of(st: Seq<SpectrumView>, p: Seq<char>, l: Seq<SpectrumProperties>) -> bool {
    let m = matching_upto(st, p, st.len() as int);
    &&& l.len() == m.len()
    &&& forall|k: int| 0 <= k < l.len() ==> #[trigger] properties_of(m[k], l[k])
}

/// What the creation of the spectrum `name` gives: an error if the name is
/// taken or the spectrum cannot be made (see `make_error`), else the store
/// with the new spectrum last.
pub open spec fn creation_answer(
    st: Seq<SpectrumView>,
    name: Seq<char>,
    k: SpectrumKind,
    xps: Seq<Seq<char>>,
    yps: Seq<Seq<char>>,
    xaxis: Option<AxisSpecification>,
    yaxis: Option<AxisSpecification>,
    pd: Seq<ParameterView>,
    st2: Seq<SpectrumView>,
    r: SpectrumReply,
) -> bool {
    if has_spectrum(st, name) {
        r matches SpectrumReply::Error(e) && e@ == "Spectrum "@ + name + " already exists"@ && st2 == st
    } else {
        match make_error(name, k, xps, yps, xaxis, yaxis, pd) {
            Some(m) => r matches SpectrumReply::Error(e) && e@ == m && st2 == st,
            None => r is Created && st2 == st.push(new_spectrum(name, k, xps, yps, xaxis, yaxis)),
        }
    }
}

/// What creating a 2-d sum spectrum gives: as any creation, except that
/// (for a new name) x and y parameter lists of different lengths are an
/// error.
pub open spec fn sum_creation_answer(
    st: Seq<SpectrumView>,
    name: Seq<char>,
    xps: Seq<Seq<char>>,
    yps: Seq<Seq<char>>,
    xaxis: AxisSpecification,
    yaxis: AxisSpecification,
    pd: Seq<ParameterView>,
    st2: Seq<SpectrumView>,
    r: SpectrumReply,
) -> bool {
    if !has_spectrum(st, name) && xps.len() != yps.len() {
        r matches SpectrumReply::Error(e) && e@ == "Number of xparams must be the same as number of y params"@ && st2
            == st
    } else {
        creation_answer(st, name, SpectrumKind::TwoDSum, xps, yps, Some(xaxis), Some(yaxis), pd, st2, r)
    }
}

/// Spectra of these kinds can be folded.
pub open spec fn foldable(k: SpectrumKind) -> bool {
    k is Multi1d || k is Multi2d || k is PGamma
}

/// The answer of a request about the spectrum `n` that `st` does not hold.
pub open spec fn missing_answer(req: SpectrumRequest, n: Seq<char>, r: SpectrumReply) -> bool {
    r matches SpectrumReply::Error(e) && e@ == (match req {
        SpectrumRequest::GetChan { .. } => "No such spectrum '"@ + n + "'"@,
        SpectrumRequest::SetChan { .. } => "No such spectrum: "@ + n,
        SpectrumRequest::Fold { .. } => "no such spectrum "@ + n,
        SpectrumRequest::Unfold(_) => "no such spectrum "@ + n,
        _ => "Spectrum "@ + n + " does not exist"@,
    })
}

/// What a request about the spectrum `i` of `st` gives (`conds` are the
/// conditions): deleting removes it; gating needs the condition to exist;
/// channel requests go by `locate`; contents by `contents_within`; setting
/// contents clears the spectrum and sets each given channel that lies in
/// it (by its `bin`) to its value; folding needs a foldable spectrum and an
/// existing condition, unfolding a folded spectrum.
pub open spec fn named_answer(
    st: Seq<SpectrumView>,
    i: int,
    req: SpectrumRequest,
    conds: Seq<Option<(Seq<char>, Condition)>>,
    st2: Seq<SpectrumView>,
    r: SpectrumReply,
) -> bool {
    let s = st[i];
    match req {
        SpectrumRequest::Delete(_) => r is Deleted && st2 == st.remove(i),
        SpectrumRequest::Gate { gate, .. } => if has_named(conds, gate@) {
            r is Gated && st2 == st.update(i, SpectrumView { gate: Some(gate@), ..s })
        } else {
            r matches SpectrumReply::Error(e) && e@ == "Condition "@ + gate@ + " does not exist"@ && st2 == st
        },
        SpectrumRequest::Ungate(_) => r is Ungated && st2 == st.update(i, SpectrumView { gate: None, ..s }),
        SpectrumRequest::GetContents { xlow, xhigh, ylow, yhigh, .. } => r matches SpectrumReply::Contents(c) && c@
            == contents_within(s, xlow, xhigh, ylow, yhigh) && st2 == st,
        SpectrumRequest::GetStats(_) => r == SpectrumReply::Statistics(s.stats) && st2 == st,
        SpectrumRequest::SetContents { contents, .. } => r is Processed && st2 == st.update(
            i,
            SpectrumView { channels: loaded(cleared(s).channels, contents@, contents@.len() as int), ..s },
        ),
        SpectrumRequest::GetChan { xchan, ychan, .. } => st2 == st && match locate(
            s,
            xchan,
            ychan,
            "Must have  a ybin for a 2d spectrum"@,
        ) {
            Ok(k) => r == SpectrumReply::ChannelValue(s.channels[k]),
            Err(m) => r matches SpectrumReply::Error(e) && e@ == m,
        },
        SpectrumRequest::SetChan { xchan, ychan, value, .. } => match locate(
            s,
            xchan,
            ychan,
            "2d spectra need a y bin"@,
        ) {
            Ok(k) => r is ChannelSet && st2 == st.update(i, SpectrumView { channels: s.channels.update(k, value), ..s }),
            Err(m) => r matches SpectrumReply::Error(e) && e@ == m && st2 == st,
        },
        SpectrumRequest::Fold { spectrum_name, condition_name } => if !foldable(s.kind) {
            r matches SpectrumReply::Error(e) && e@ == "Failed to fold "@ + spectrum_name@
                + ": only multiply incremented spectra can be folded"@ && st2 == st
        } else if !has_named(conds, condition_name@) {
            r matches SpectrumReply::Error(e) && e@ == "Failed to fold "@ + spectrum_name@ + ": no such condition "@
                + condition_name@ && st2 == st
        } else {
            r is Folded && st2 == st.update(i, SpectrumView { fold: Some(condition_name@), ..s })
        },
        SpectrumRequest::Unfold(n) => if s.fold is None {
            r matches SpectrumReply::Error(e) && e@ == "Failed to unfold spectrum "@ + n@ + ": it is not folded"@ && st2
                == st
        } else {
            r is Unfolded && st2 == st.update(i, SpectrumView { fold: None, ..s })
        },
        _ => true,
    }
}

/// The creation request `req` as a kind, parameter lists and axes.
pub open spec fn creation_args(req: SpectrumRequest) -> (
    SpectrumKind,
    Seq<Seq<char>>,
    Seq<Seq<char>>,
    Option<AxisSpecification>,
    Option<AxisSpecification>,
) {
    match req {
        SpectrumRequest::Create1D { parameter, axis, .. } => (
            SpectrumKind::OneD,
            seq![parameter@],
            Seq::empty(),
            Some(axis),
            None,
        ),
        SpectrumRequest::CreateMulti1D { params, axis, .. } => (
            SpectrumKind::Multi1d,
            strings_view(params@),
            Seq::empty(),
            Some(axis),
            None,
        ),
        SpectrumRequest::CreateMulti2D { params, xaxis, yaxis, .. } => (
            SpectrumKind::Multi2d,
            strings_view(params@),
            Seq::empty(),
            Some(xaxis),
            Some(yaxis),
        ),
        SpectrumRequest::CreatePGamma { xparams, yparams, xaxis, yaxis, .. } => (
            SpectrumKind::PGamma,
            strings_view(xparams@),
            strings_view(yparams@),
            Some(xaxis),
            Some(yaxis),
        ),
        SpectrumRequest::CreateSummary { params, yaxis, .. } => (
            SpectrumKind::Summary,
            strings_view(params@),
            Seq::empty(),
            None,
            Some(yaxis),
        ),
        SpectrumRequest::Create2D { xparam, yparam, xaxis, yaxis, .. } => (
            SpectrumKind::TwoD,
            seq![xparam@],
            seq![yparam@],
            Some(xaxis),
            Some(yaxis),
        ),
        _ => (SpectrumKind::TwoDSum, Seq::empty(), Seq::empty(), None, None),
    }
}

/// What the store `st` answers to `req`, and the store `st2` it leaves:
/// creations by `creation_answer` (a 2-d sum by `sum_creation_answer`);
/// listing and clearing go by the glob pattern (an invalid pattern is an
/// error with the glob crate's message); events leave the spectra as they
/// are (their histogramming is done by the program, see
/// `SpectrumProcessor::record_fill`); a request about a named spectrum is
/// answered by `named_answer`, or by `missing_answer` when there is none.
pub open spec fn store_answer(
    st: Seq<SpectrumView>,
    req: SpectrumRequest,
    pd: Seq<ParameterView>,
    conds: Seq<Option<(Seq<char>, Condition)>>,
    st2: Seq<SpectrumView>,
    r: SpectrumReply,
) -> bool {
    match req {
        SpectrumRequest::Create2DSum { name, xparams, yparams, xaxis, yaxis } => sum_creation_answer(
            st,
            name@,
            strings_view(xparams@),
            strings_view(yparams@),
            xaxis,
            yaxis,
            pd,
            st2,
            r,
        ),
        SpectrumRequest::List(p) => st2 == st && match glob_compile_error(p@) {
            None => r matches SpectrumReply::Listing(l) && listing_of(st, p@, l@),
            Some(m) => r matches SpectrumReply::Error(e) && e@ == "Bad glob pattern "@ + m,
        },
        SpectrumRequest::Clear(p) => match glob_compile_error(p@) {
            None => r is Cleared && st2.len() == st.len() && forall|i: int|
                0 <= i < st.len() ==> #[trigger] st2[i] == if glob_matches(p@, st[i].name) {
                    cleared(st[i])
                } else {
                    st[i]
                },
            Some(m) => r matches SpectrumReply::Error(e) && e@ == "Bad glob pattern: "@ + m && st2 == st,
        },
        SpectrumRequest::Events(_) => r is Processed && st2 == st,
        _ => {
            let n = request_name(req)->0;
            if is_creation(req) {
                let (k, xps, yps, xa, ya) = creation_args(req);
                creation_answer(st, n, k, xps, yps, xa, ya, pd, st2, r)
            } else if has_spectrum(st, n) {
                exists|i: int| named_at(st, n, i) && named_answer(st, i, req, conds, st2, r)
            } else {
                missing_answer(req, n, r) && st2 == st
            }
        },
    }
}

/// The spectrum part of the histogrammer: the spectra, by name, and the
/// events handed over and not yet histogrammed.
pub struct SpectrumProcessor {
    spectra: Vec<Spectrum>,
    pending: Vec<Event>,
}

impl SpectrumProcessor {
    /// The spectra, in order of creation.
    pub closed spec fn spec_spectra(&self) -> Seq<SpectrumView> {
        self.spectra@.map_values(|s: Spectrum| s@)
    }

    /// The events handed over and not yet histogrammed.
    pub closed spec fn spec_pending(&self) -> Seq<Seq<EventParameter>> {
        event_views(self.pending@)
    }

    /// The spectra are well formed and have distinct names.
    pub open spec fn wf(&self) -> bool {
        store_wf(self.spec_spectra())
    }

    /// Hands out the events not yet histogrammed, in order, and forgets
    /// them.
    pub fn take_events(&mut self) -> (r: Vec<Event>)
        ensures
            event_views(r@) == old(self).spec_pending(),
            final(self).spec_pending() == Seq::<Seq<EventParameter>>::empty(),
            final(self).spec_spectra() == old(self).spec_spectra(),
    {
        let mut r: Vec<Event> = Vec::new();
        std::mem::swap(&mut r, &mut self.pending);
        proof {
            assert(self.spec_pending() =~= Seq::<Seq<EventParameter>>::empty());
        }
        r
    }

    /// Installs the coordinates of the channels of spectrum `i` (see
    /// `Spectrum::install_coordinates`); `false`, and nothing changes, when
    /// there is no spectrum `i` or a table has the wrong length.
    pub fn install_coordinates(&mut self, i: usize, xs: Vec<u64>, ys: Vec<u64>) -> (r: bool)
        requires
            old(self).wf(),
        ensures
            final(self).wf(),
            final(self).spec_pending() == old(self).spec_pending(),
            r == (i < old(self).spec_spectra().len() && xs@.len() == old(self).spec_spectra()[i as int].nx
                && ys@.len() == old(self).spec_spectra()[i as int].ny),
            r ==> final(self).spec_spectra() == old(self).spec_spectra().update(
                i as int,
                SpectrumView { xcoords: xs@, ycoords: ys@, ..old(self).spec_spectra()[i as int] },
            ),
            !r ==> final(self).spec_spectra() == old(self).spec_spectra(),
    {
        if i >= self.spectra.len() {
            return false;
        }
        proof {
            assert(self.spec_spectra()[i as int] == self.spectra@[i as int]@);
        }
        let ghost xv = xs@;
        let ghost yv = ys@;
        let r = self.spectra[i].install_coordinates(xs, ys);
        proof {
            assert(self.spec_spectra() =~= old(self).spec_spectra().update(i as int, self.spectra@[i as int]@));
            old(self).lemma_update_keeps_wf(i as int, self.spec_spectra()[i as int]);
            if !r {
                assert(self.spec_spectra() =~= old(self).spec_spectra());
            }
        }
        r
    }

    /// Records a fill of channel `(xi, yi)` of spectrum `i` with the value
    /// `value` (see `Spectrum::record_fill`); `false`, and nothing changes,
    /// when there is no such spectrum or channel.
    pub fn record_fill(&mut self, i: usize, xi: usize, yi: usize, value: u64) -> (r: bool)
        requires
            old(self).wf(),
        ensures
            final(self).wf(),
            final(self).spec_pending() == old(self).spec_pending(),
            r == (i < old(self).spec_spectra().len() && xi < old(self).spec_spectra()[i as int].nx && yi < old(
                self,
            ).spec_spectra()[i as int].ny),
            r ==> final(self).spec_spectra() == old(self).spec_spectra().update(
                i as int,
                SpectrumView {
                    channels: old(self).spec_spectra()[i as int].channels.update(
                        xi + yi * old(self).spec_spectra()[i as int].nx,
                        value,
                    ),
                    stats: counted(
                        old(self).spec_spectra()[i as int].stats,
                        xi as int,
                        yi as int,
                        old(self).spec_spectra()[i as int].nx,
                        old(self).spec_spectra()[i as int].ny,
                        is_2d(old(self).spec_spectra()[i as int].kind),
                    ),
                    ..old(self).spec_spectra()[i as int]
                },
            ),
            !r ==> final(self).spec_spectra() == old(self).spec_spectra(),
    {
        if i >= self.spectra.len() {
            return false;
        }
        proof {
            assert(self.spec_spectra()[i as int] == self.spectra@[i as int]@);
        }
        let r = self.spectra[i].record_fill(xi, yi, value);
        proof {
            assert(self.spec_spectra() =~= old(self).spec_spectra().update(i as int, self.spectra@[i as int]@));
            old(self).lemma_update_keeps_wf(i as int, self.spec_spectra()[i as int]);
            if !r {
                assert(self.spec_spectra() =~= old(self).spec_spectra());
            }
        }
        r
    }

    /// A store without spectra.
    pub fn new() -> (r: SpectrumProcessor)
        ensures
            r.wf(),
            r.spec_spectra() == Seq::<SpectrumView>::empty(),
            r.spec_pending() == Seq::<Seq<EventParameter>>::empty(),
    {
        let r = SpectrumProcessor { spectra: Vec::new(), pending: Vec::new() };
        proof {
            assert(r.spec_spectra() =~= Seq::<SpectrumView>::empty());
            assert(r.spec_pending() =~= Seq::<Seq<EventParameter>>::empty());
        }
        r
    }

    /// The number of spectra.
    pub fn len(&self) -> (r: usize)
        ensures
            r == self.spec_spectra().len(),
    {
        self.spectra.len()
    }

    /// The spectrum named `name`.
    pub fn find(&self, name: &str) -> (r: Option<usize>)
        ensures
            match r {
                Some(i) => named_at(self.spec_spectra(), name@, i as int),
                None => !has_spectrum(self.spec_spectra(), name@),
            },
    {
        let key = String::from_str(name);
        let mut i: usize = 0;
        while i < self.spectra.len()
            invariant
                i <= self.spectra@.len(),
                key@ == name@,
                forall|j: int| 0 <= j < i ==> #[trigger] self.spec_spectra()[j].name != name@,
            decreases self.spectra@.len() - i,
        {
            let found = *self.spectra[i].name() == key;
            proof {
                assert(self.spec_spectra()[i as int] == self.spectra@[i as int]@);
            }
            if found {
                return Some(i);
            }
            i = i + 1;
        }
        None
    }

    /// Spectrum `i`.
    pub fn spectrum(&self, i: usize) -> (r: &Spectrum)
        requires
            i < self.spec_spectra().len(),
        ensures
            r@ == self.spec_spectra()[i as int],
    {
        &self.spectra[i]
    }

    fn create(
        &mut self,
        name: &str,
        k: SpectrumKind,
        xparams: &Vec<String>,
        yparams: &Vec<String>,
        xaxis: Option<AxisSpecification>,
        yaxis: Option<AxisSpecification>,
        pdict: &ParameterDictionary,
    ) -> (r: SpectrumReply)
        requires
            old(self).wf(),
            pdict.wf(),
            is_2d(k) <==> yaxis is Some,
            !(k is Summary) <==> xaxis is Some,
        ensures
            final(self).wf(),
            creation_answer(
                old(self).spec_spectra(),
                name@,
                k,
                strings_view(xparams@),
                strings_view(yparams@),
                xaxis,
                yaxis,
                pdict@,
                final(self).spec_spectra(),
                r,
            ),
    {
        proof {
            reveal_strlit("Spectrum ");
            reveal_strlit(" already exists");
        }
        if self.find(name).is_some() {
            return SpectrumReply::Error(String::from_str("Spectrum ").concat(name).concat(" already exists"));
        }
        match Spectrum::make(name, k, xparams, yparams, xaxis, yaxis, pdict) {
            Ok(s) => {
                self.spectra.push(s);
                proof {
                    assert(self.spec_spectra() =~= old(self).spec_spectra().push(s@));
                    assert forall|i: int, j: int|
                        0 <= i < self.spec_spectra().len() && 0 <= j < self.spec_spectra().len() && i != j
                            implies #[trigger] self.spec_spectra()[i].name != #[trigger] self.spec_spectra()[j].name by {
                        if i == old(self).spec_spectra().len() as int {
                            assert(old(self).spec_spectra()[j].name == self.spec_spectra()[j].name);
                        }
                        if j == old(self).spec_spectra().len() as int {
                            assert(old(self).spec_spectra()[i].name == self.spec_spectra()[i].name);
                        }
                    }
                }
                SpectrumReply::Created
            },
            Err(e) => SpectrumReply::Error(e),
        }
    }

    fn make_2dsum(
        &mut self,
        name: &str,
        xparams: &Vec<String>,
        yparams: &Vec<String>,
        xaxis: AxisSpecification,
        yaxis: AxisSpecification,
        pdict: &ParameterDictionary,
    ) -> (r: SpectrumReply)
        requires
            old(self).wf(),
            pdict.wf(),
        ensures
            final(self).wf(),
            sum_creation_answer(
                old(self).spec_spectra(),
                name@,
                strings_view(xparams@),
                strings_view(yparams@),
                xaxis,
                yaxis,
                pdict@,
                final(self).spec_spectra(),
                r,
            ),
    {
        if self.find(name).is_none() && xparams.len() != yparams.len() {
            proof {
                reveal_strlit("Number of xparams must be the same as number of y params");
            }
            return SpectrumReply::Error(
                String::from_str("Number of xparams must be the same as number of y params"),
            );
        }
        self.create(name, SpectrumKind::TwoDSum, xparams, yparams, Some(xaxis), Some(yaxis), pdict)
    }
}

impl SpectrumProcessor {
    proof fn lemma_update_keeps_wf(&self, i: int, s: SpectrumView)
        requires
            self.wf(),
            0 <= i < self.spec_spectra().len(),
            s.name == self.spec_spectra()[i].name,
            spectrum_wf(s),
        ensures
            store_wf(self.spec_spectra().update(i, s)),
    {
        let st = self.spec_spectra();
        let st2 = st.update(i, s);
        assert forall|a: int, b: int| 0 <= a < st2.len() && 0 <= b < st2.len() && a != b implies #[trigger] st2[a].name
            != #[trigger] st2[b].name by {
            assert(st2[a].name == st[a].name);
            assert(st2[b].name == st[b].name);
        }
    }

    /// Removes spectrum `i`.
    fn remove_at(&mut self, i: usize)
        requires
            old(self).wf(),
            i < old(self).spec_spectra().len(),
        ensures
            final(self).wf(),
            final(self).spec_spectra() == old(self).spec_spectra().remove(i as int),
    {
        self.spectra.remove(i);
        proof {
            let st = old(self).spec_spectra();
            assert(self.spec_spectra() =~= st.remove(i as int));
            let st2 = self.spec_spectra();
            assert forall|a: int, b: int|
                0 <= a < st2.len() && 0 <= b < st2.len() && a != b implies #[trigger] st2[a].name
                    != #[trigger] st2[b].name by {
                let oa = if a < i { a } else { a + 1 };
                let ob = if b < i { b } else { b + 1 };
                assert(st2[a] == st[oa]);
                assert(st2[b] == st[ob]);
            }
            assert forall|a: int| 0 <= a < st2.len() implies #[trigger] spectrum_wf(st2[a]) by {
                let oa = if a < i { a } else { a + 1 };
                assert(st2[a] == st[oa]);
            }
        }
    }

    /// Applies `f` to spectrum `i`, which keeps its name.
    fn gate_at(&mut self, i: usize, g: Option<String>)
        requires
            old(self).wf(),
            i < old(self).spec_spectra().len(),
        ensures
            final(self).wf(),
            final(self).spec_spectra() == old(self).spec_spectra().update(
                i as int,
                SpectrumView { gate: opt_view(g), ..old(self).spec_spectra()[i as int] },
            ),
    {
        proof {
            assert(self.spec_spectra()[i as int] == self.spectra@[i as int]@);
        }
        self.spectra[i].set_gate(g);
        proof {
            assert(self.spec_spectra() =~= old(self).spec_spectra().update(
                i as int,
                SpectrumView { gate: opt_view(g), ..old(self).spec_spectra()[i as int] },
            ));
            old(self).lemma_update_keeps_wf(i as int, self.spec_spectra()[i as int]);
        }
    }

    fn fold_at(&mut self, i: usize, f: Option<String>)
        requires
            old(self).wf(),
            i < old(self).spec_spectra().len(),
        ensures
            final(self).wf(),
            final(self).spec_spectra() == old(self).spec_spectra().update(
                i as int,
                SpectrumView { fold: opt_view(f), ..old(self).spec_spectra()[i as int] },
            ),
    {
        proof {
            assert(self.spec_spectra()[i as int] == self.spectra@[i as int]@);
        }
        self.spectra[i].set_fold(f);
        proof {
            assert(self.spec_spectra() =~= old(self).spec_spectra().update(
                i as int,
                SpectrumView { fold: opt_view(f), ..old(self).spec_spectra()[i as int] },
            ));
            old(self).lemma_update_keeps_wf(i as int, self.spec_spectra()[i as int]);
        }
    }

    fn clear_at(&mut self, i: usize)
        requires
            old(self).wf(),
            i < old(self).spec_spectra().len(),
        ensures
            final(self).wf(),
            final(self).spec_spectra() == old(self).spec_spectra().update(
                i as int,
                cleared(old(self).spec_spectra()[i as int]),
            ),
    {
        proof {
            assert(self.spec_spectra()[i as int] == self.spectra@[i as int]@);
        }
        self.spectra[i].clear();
        proof {
            assert(self.spec_spectra() =~= old(self).spec_spectra().update(
                i as int,
                cleared(old(self).spec_spectra()[i as int]),
            ));
            old(self).lemma_update_keeps_wf(i as int, self.spec_spectra()[i as int]);
        }
    }

    fn set_channel_at(&mut self, i: usize, xchan: i32, ychan: Option<i32>, value: u64) -> (r: Result<(), String>)
        requires
            old(self).wf(),
            i < old(self).spec_spectra().len(),
        ensures
            final(self).wf(),
            match locate(old(self).spec_spectra()[i as int], xchan, ychan, "2d spectra need a y bin"@) {
                Ok(k) => r is Ok && final(self).spec_spectra() == old(self).spec_spectra().update(
                    i as int,
                    SpectrumView {
                        channels: old(self).spec_spectra()[i as int].channels.update(k, value),
                        ..old(self).spec_spectra()[i as int]
                    },
                ),
                Err(e) => r matches Err(m) && m@ == e && final(self).spec_spectra() == old(self).spec_spectra(),
            },
    {
        proof {
            assert(self.spec_spectra()[i as int] == self.spectra@[i as int]@);
        }
        let r = self.spectra[i].set_channel_value(xchan, ychan, value);
        proof {
            assert(self.spec_spectra() =~= old(self).spec_spectra().update(i as int, self.spectra@[i as int]@));
            old(self).lemma_update_keeps_wf(i as int, self.spec_spectra()[i as int]);
            if r is Err {
                assert(self.spec_spectra() =~= old(self).spec_spectra());
            }
        }
        r
    }

    fn list(&self, pattern: &str) -> (r: SpectrumReply)
        requires
            self.wf(),
        ensures
            match glob_compile_error(pattern@) {
                None => r matches SpectrumReply::Listing(l) && listing_of(self.spec_spectra(), pattern@, l@),
                Some(m) => r matches SpectrumReply::Error(e) && e@ == "Bad glob pattern "@ + m,
            },
    {
        proof {
            reveal_strlit("Bad glob pattern ");
        }
        match GlobPattern::new(pattern) {
            Err(m) => SpectrumReply::Error(String::from_str("Bad glob pattern ").concat(m.as_str())),
            Ok(p) => {
                let ghost st = self.spec_spectra();
                let mut out: Vec<SpectrumProperties> = Vec::new();
                let mut i: usize = 0;
                while i < self.spectra.len()
                    invariant
                        self.wf(),
                        st == self.spec_spectra(),
                        p.spec_text() == pattern@,
                        i <= st.len(),
                        out@.len() == matching_upto(st, pattern@, i as int).len(),
                        forall|k: int|
                            0 <= k < out@.len() ==> #[trigger] properties_of(
                                matching_upto(st, pattern@, i as int)[k],
                                out@[k],
                            ),
                    decreases st.len() - i,
                {
                    proof {
                        assert(st[i as int] == self.spectra@[i as int]@);
                        assert(spectrum_wf(st[i as int]));
                    }
                    if p.matches(self.spectra[i].name().as_str()) {
                        let props = self.spectra[i].properties();
                        out.push(props);
                    }
                    i = i + 1;
                }
                SpectrumReply::Listing(out)
            },
        }
    }

    fn clear_matching(&mut self, pattern: &str) -> (r: SpectrumReply)
        requires
            old(self).wf(),
        ensures
            final(self).wf(),
            match glob_compile_error(pattern@) {
                None => r is Cleared && final(self).spec_spectra().len() == old(self).spec_spectra().len()
                    && forall|i: int|
                    0 <= i < old(self).spec_spectra().len() ==> #[trigger] final(self).spec_spectra()[i] == if glob_matches(
                        pattern@,
                        old(self).spec_spectra()[i].name,
                    ) {
                        cleared(old(self).spec_spectra()[i])
                    } else {
                        old(self).spec_spectra()[i]
                    },
                Some(m) => r matches SpectrumReply::Error(e) && e@ == "Bad glob pattern: "@ + m
                    && final(self).spec_spectra() == old(self).spec_spectra(),
            },
    {
        proof {
            reveal_strlit("Bad glob pattern: ");
        }
        match GlobPattern::new(pattern) {
            Err(m) => SpectrumReply::Error(String::from_str("Bad glob pattern: ").concat(m.as_str())),
            Ok(p) => {
                let ghost st = old(self).spec_spectra();
                let mut i: usize = 0;
                while i < self.spectra.len()
                    invariant
                        self.wf(),
                        p.spec_text() == pattern@,
                        self.spec_spectra().len() == st.len(),
                        i <= st.len(),
                        forall|k: int|
                            0 <= k < i ==> #[trigger] self.spec_spectra()[k] == if glob_matches(pattern@, st[k].name) {
                                cleared(st[k])
                            } else {
                                st[k]
                            },
                        forall|k: int| i <= k < st.len() ==> #[trigger] self.spec_spectra()[k] == st[k],
                    decreases st.len() - i,
                {
                    proof {
                        assert(self.spec_spectra()[i as int] == self.spectra@[i as int]@);
                    }
                    if p.matches(self.spectra[i].name().as_str()) {
                        self.clear_at(i);
                    }
                    i = i + 1;
                }
                SpectrumReply::Cleared
            },
        }
    }

    fn load(&mut self, i: usize, contents: &Vec<Channel>)
        requires
            old(self).wf(),
            i < old(self).spec_spectra().len(),
        ensures
            final(self).wf(),
            final(self).spec_spectra() == old(self).spec_spectra().update(
                i as int,
                SpectrumView {
                    channels: loaded(cleared(old(self).spec_spectra()[i as int]).channels, contents@, contents@.len() as int),
                    ..old(self).spec_spectra()[i as int]
                },
            ),
    {
        proof {
            assert(self.spec_spectra()[i as int] == self.spectra@[i as int]@);
        }
        self.spectra[i].load(contents);
        proof {
            assert(self.spec_spectra() =~= old(self).spec_spectra().update(i as int, self.spectra@[i as int]@));
            old(self).lemma_update_keeps_wf(i as int, self.spec_spectra()[i as int]);
        }
    }
}

impl SpectrumProcessor {
    fn named_request(
        &mut self,
        i: usize,
        req: SpectrumRequest,
        cdict: &ConditionDictionary,
    ) -> (r: SpectrumReply)
        requires
            old(self).wf(),
            i < old(self).spec_spectra().len(),
            !is_creation(req),
            !(req is List || req is Clear || req is Events),
        ensures
            final(self).wf(),
            named_answer(old(self).spec_spectra(), i as int, req, cdict.entries(), final(self).spec_spectra(), r),
    {
        proof {
            assert(self.spec_spectra()[i as int] == self.spectra@[i as int]@);
            reveal_strlit("Condition ");
            reveal_strlit(" does not exist");
            reveal_strlit("Failed to fold ");
            reveal_strlit(": only multiply incremented spectra can be folded");
            reveal_strlit(": no such condition ");
            reveal_strlit("Failed to unfold spectrum ");
            reveal_strlit(": it is not folded");
        }
        match req {
            SpectrumRequest::Delete(_) => {
                self.remove_at(i);
                SpectrumReply::Deleted
            },
            SpectrumRequest::Gate { gate, .. } => {
                if cdict.get(gate.as_str()).is_some() {
                    self.gate_at(i, Some(gate));
                    SpectrumReply::Gated
                } else {
                    SpectrumReply::Error(String::from_str("Condition ").concat(gate.as_str()).concat(" does not exist"))
                }
            },
            SpectrumRequest::Ungate(_) => {
                self.gate_at(i, None);
                SpectrumReply::Ungated
            },
            SpectrumRequest::GetContents { xlow, xhigh, ylow, yhigh, .. } => SpectrumReply::Contents(
                self.spectra[i].contents(xlow, xhigh, ylow, yhigh),
            ),
            SpectrumRequest::GetStats(_) => SpectrumReply::Statistics(self.spectra[i].statistics()),
            SpectrumRequest::SetContents { contents, .. } => {
                self.load(i, &contents);
                SpectrumReply::Processed
            },
            SpectrumRequest::GetChan { xchan, ychan, .. } => match self.spectra[i].channel_value(xchan, ychan) {
                Ok(v) => SpectrumReply::ChannelValue(v),
                Err(e) => SpectrumReply::Error(e),
            },
            SpectrumRequest::SetChan { xchan, ychan, value, .. } => match self.set_channel_at(i, xchan, ychan, value) {
                Ok(_) => SpectrumReply::ChannelSet,
                Err(e) => SpectrumReply::Error(e),
            },
            SpectrumRequest::Fold { spectrum_name, condition_name } => {
                let k = self.spectra[i].kind();
                let ok_kind = match k {
                    SpectrumKind::Multi1d => true,
                    SpectrumKind::Multi2d => true,
                    SpectrumKind::PGamma => true,
                    _ => false,
                };
                if !ok_kind {
                    SpectrumReply::Error(
                        String::from_str("Failed to fold ").concat(spectrum_name.as_str()).concat(
                            ": only multiply incremented spectra can be folded",
                        ),
                    )
                } else if cdict.get(condition_name.as_str()).is_none() {
                    SpectrumReply::Error(
                        String::from_str("Failed to fold ").concat(spectrum_name.as_str()).concat(
                            ": no such condition ",
                        ).concat(condition_name.as_str()),
                    )
                } else {
                    self.fold_at(i, Some(condition_name));
                    SpectrumReply::Folded
                }
            },
            SpectrumRequest::Unfold(n) => {
                if self.spectra[i].is_folded() {
                    self.fold_at(i, None);
                    SpectrumReply::Unfolded
                } else {
                    SpectrumReply::Error(
                        String::from_str("Failed to unfold spectrum ").concat(n.as_str()).concat(": it is not folded"),
                    )
                }
            },
            _ => SpectrumReply::Processed,
        }
    }

    fn missing(req: &SpectrumRequest, n: &str) -> (r: SpectrumReply)
        ensures
            missing_answer(*req, n@, r),
    {
        proof {
            reveal_strlit("Spectrum ");
            reveal_strlit(" does not exist");
            reveal_strlit("No such spectrum '");
            reveal_strlit("'");
            reveal_strlit("No such spectrum: ");
            reveal_strlit("no such spectrum ");
        }
        match req {
            SpectrumRequest::GetChan { .. } => SpectrumReply::Error(
                String::from_str("No such spectrum '").concat(n).concat("'"),
            ),
            SpectrumRequest::SetChan { .. } => SpectrumReply::Error(String::from_str("No such spectrum: ").concat(n)),
            SpectrumRequest::Fold { .. } => SpectrumReply::Error(String::from_str("no such spectrum ").concat(n)),
            SpectrumRequest::Unfold(_) => SpectrumReply::Error(String::from_str("no such spectrum ").concat(n)),
            _ => SpectrumReply::Error(String::from_str("Spectrum ").concat(n).concat(" does not exist")),
        }
    }

    fn about(req: &SpectrumRequest) -> (r: String)
        requires
            request_name(*req) is Some,
        ensures
            r@ == request_name(*req)->0,
    {
        match req {
            SpectrumRequest::Create1D { name, .. } => name.clone(),
            SpectrumRequest::CreateMulti1D { name, .. } => name.clone(),
            SpectrumRequest::CreateMulti2D { name, .. } => name.clone(),
            SpectrumRequest::CreatePGamma { name, .. } => name.clone(),
            SpectrumRequest::CreateSummary { name, .. } => name.clone(),
            SpectrumRequest::Create2D { name, .. } => name.clone(),
            SpectrumRequest::Create2DSum { name, .. } => name.clone(),
            SpectrumRequest::Delete(name) => name.clone(),
            SpectrumRequest::Gate { spectrum, .. } => spectrum.clone(),
            SpectrumRequest::Ungate(name) => name.clone(),
            SpectrumRequest::GetContents { name, .. } => name.clone(),
            SpectrumRequest::GetStats(name) => name.clone(),
            SpectrumRequest::SetContents { name, .. } => name.clone(),
            SpectrumRequest::GetChan { name, .. } => name.clone(),
            SpectrumRequest::SetChan { name, .. } => name.clone(),
            SpectrumRequest::Fold { spectrum_name, .. } => spectrum_name.clone(),
            SpectrumRequest::Unfold(name) => name.clone(),
            SpectrumRequest::List(p) => p.clone(),
            SpectrumRequest::Clear(p) => p.clone(),
            SpectrumRequest::Events(_) => String::new(),
        }
    }

    /// Answers `req` (see `store_answer`).  Events forget the cached
    /// results of the conditions and are kept until the program, which
    /// bins them (the axes are binary64 numbers), takes them with
    /// `take_events` and records their fills with `record_fill`.
    pub fn process_request(
        &mut self,
        req: SpectrumRequest,
        pdict: &ParameterDictionary,
        cdict: &mut ConditionDictionary,
    ) -> (r: SpectrumReply)
        requires
            old(self).wf(),
            pdict.wf(),
            old(cdict).wf(),
        ensures
            final(self).wf(),
            final(cdict).wf(),
            store_answer(old(self).spec_spectra(), req, pdict@, old(cdict).entries(), final(self).spec_spectra(), r),
            same_conditions(old(cdict).entries(), final(cdict).entries()),
            (req matches SpectrumRequest::Events(v) && v@.len() > 0) ==> forall|i: int|
                0 <= i < final(cdict).entries().len() ==> #[trigger] slot_caches(final(cdict).entries())[i] is None,
            !(req matches SpectrumRequest::Events(v) && v@.len() > 0) ==> *final(cdict) == *old(cdict),
            req matches SpectrumRequest::Events(v) ==> final(self).spec_pending() == old(self).spec_pending()
                + event_views(v@),
    {
        match req {
            SpectrumRequest::Create1D { name, parameter, axis } => {
                let mut xs: Vec<String> = Vec::new();
                xs.push(parameter);
                let ys: Vec<String> = Vec::new();
                proof {
                    assert(strings_view(xs@) =~= seq![parameter@]);
                    assert(strings_view(ys@) =~= Seq::<Seq<char>>::empty());
                }
                self.create(name.as_str(), SpectrumKind::OneD, &xs, &ys, Some(axis), None, pdict)
            },
            SpectrumRequest::CreateMulti1D { name, params, axis } => {
                let ys: Vec<String> = Vec::new();
                proof {
                    assert(strings_view(ys@) =~= Seq::<Seq<char>>::empty());
                }
                self.create(name.as_str(), SpectrumKind::Multi1d, &params, &ys, Some(axis), None, pdict)
            },
            SpectrumRequest::CreateMulti2D { name, params, xaxis, yaxis } => {
                let ys: Vec<String> = Vec::new();
                proof {
                    assert(strings_view(ys@) =~= Seq::<Seq<char>>::empty());
                }
                self.create(name.as_str(), SpectrumKind::Multi2d, &params, &ys, Some(xaxis), Some(yaxis), pdict)
            },
            SpectrumRequest::CreatePGamma { name, xparams, yparams, xaxis, yaxis } => self.create(
                name.as_str(),
                SpectrumKind::PGamma,
                &xparams,
                &yparams,
                Some(xaxis),
                Some(yaxis),
                pdict,
            ),
            SpectrumRequest::CreateSummary { name, params, yaxis } => {
                let ys: Vec<String> = Vec::new();
                proof {
                    assert(strings_view(ys@) =~= Seq::<Seq<char>>::empty());
                }
                self.create(name.as_str(), SpectrumKind::Summary, &params, &ys, None, Some(yaxis), pdict)
            },
            SpectrumRequest::Create2D { name, xparam, yparam, xaxis, yaxis } => {
                let mut xs: Vec<String> = Vec::new();
                xs.push(xparam);
                let mut ys: Vec<String> = Vec::new();
                ys.push(yparam);
                proof {
                    assert(strings_view(xs@) =~= seq![xparam@]);
                    assert(strings_view(ys@) =~= seq![yparam@]);
                }
                self.create(name.as_str(), SpectrumKind::TwoD, &xs, &ys, Some(xaxis), Some(yaxis), pdict)
            },
            SpectrumRequest::Create2DSum { name, xparams, yparams, xaxis, yaxis } => self.make_2dsum(
                name.as_str(),
                &xparams,
                &yparams,
                xaxis,
                yaxis,
                pdict,
            ),
            SpectrumRequest::List(p) => self.list(p.as_str()),
            SpectrumRequest::Clear(p) => self.clear_matching(p.as_str()),
            SpectrumRequest::Events(v) => {
                if v.len() > 0 {
                    cdict.invalidate_cache();
                }
                let mut copies = copy_events(v.as_slice());
                self.pending.append(&mut copies);
                proof {
                    assert(self.spec_pending() =~= old(self).spec_pending() + event_views(v@));
                    assert(self.spec_spectra() =~= old(self).spec_spectra());
                }
                SpectrumReply::Processed
            },
            _ => {
                let n = Self::about(&req);
                match self.find(n.as_str()) {
                    Some(i) => self.named_request(i, req, cdict),
                    None => Self::missing(&req, n.as_str()),
                }
            },
        }
    }
}


/// A channel read after it was set gives the value set: where `SetChan`
/// finds a channel, `GetChan` with the same channel numbers finds the same
/// channel, which holds the new value.
pub proof fn law_set_then_get_channel(s: SpectrumView, xchan: i32, ychan: Option<i32>, value: u64)
    requires
        spectrum_wf(s),
        locate(s, xchan, ychan, "2d spectra need a y bin"@) is Ok,
    ensures
        ({
            let k = locate(s, xchan, ychan, "2d spectra need a y bin"@)->Ok_0;
            let s2 = SpectrumView { channels: s.channels.update(k, value), ..s };
            locate(s2, xchan, ychan, "Must have  a ybin for a 2d spectrum"@) == Ok::<int, Seq<char>>(k)
                && s2.channels[k] == value
        }),
{
    crate::spectra::lemma_locate_in_range(s, xchan, ychan, "2d spectra need a y bin"@);
}

/// A spectrum that was created is listed afterwards, under its name, with
/// no other spectrum of that name.
pub proof fn law_created_is_held(
    st: Seq<SpectrumView>,
    name: Seq<char>,
    k: SpectrumKind,
    xps: Seq<Seq<char>>,
    yps: Seq<Seq<char>>,
    xaxis: Option<AxisSpecification>,
    yaxis: Option<AxisSpecification>,
    pd: Seq<ParameterView>,
    st2: Seq<SpectrumView>,
    r: SpectrumReply,
)
    requires
        store_wf(st),
        creation_answer(st, name, k, xps, yps, xaxis, yaxis, pd, st2, r),
        r is Created,
    ensures
        named_at(st2, name, st.len() as int),
        st2[st.len() as int] == new_spectrum(name, k, xps, yps, xaxis, yaxis),
        forall|i: int| 0 <= i < st.len() ==> st2[i] == st[i] && st2[i].name != name,
{
    assert forall|i: int| 0 <= i < st.len() implies st2[i] == st[i] && st2[i].name != name by {
        if st[i].name == name {
            assert(has_spectrum(st, name));
        }
    }
}

/// A deleted spectrum is gone, and the others stay, in order.
pub proof fn law_deleted_is_gone(
    st: Seq<SpectrumView>,
    i: int,
    req: SpectrumRequest,
    conds: Seq<Option<(Seq<char>, Condition)>>,
    st2: Seq<SpectrumView>,
    r: SpectrumReply,
)
    requires
        store_wf(st),
        req is Delete,
        named_at(st, request_name(req)->0, i),
        named_answer(st, i, req, conds, st2, r),
    ensures
        !has_spectrum(st2, request_name(req)->0),
        st2 == st.remove(i),
{
    let n = request_name(req)->0;
    if has_spectrum(st2, n) {
        let j = choose|j: int| 0 <= j < st2.len() && #[trigger] st2[j].name == n;
        let oj = if j < i { j } else { j + 1 };
        assert(st2[j] == st[oj]);
    }
}

/// Clearing leaves every matched spectrum with all channels 0, and
/// changes nothing else.
pub proof fn law_cleared_is_zero(s: SpectrumView, k: int)
    requires
        0 <= k < s.channels.len(),
    ensures
        cleared(s).channels[k] == 0,
        cleared(s).channels.len() == s.channels.len(),
        (SpectrumView { channels: s.channels, ..cleared(s) }) == s,
{
}

/// Gating a spectrum with an existing condition gates it with that
/// condition and changes nothing else; ungating leaves it ungated and
/// changes nothing else; gating with a condition that does not exist
/// changes nothing.
pub proof fn law_gate_and_ungate(
    st: Seq<SpectrumView>,
    i: int,
    req: SpectrumRequest,
    conds: Seq<Option<(Seq<char>, Condition)>>,
    st2: Seq<SpectrumView>,
    r: SpectrumReply,
)
    requires
        store_wf(st),
        0 <= i < st.len(),
        req is Gate || req is Ungate,
        named_answer(st, i, req, conds, st2, r),
    ensures
        st2.len() == st.len(),
        forall|j: int| 0 <= j < st.len() && j != i ==> st2[j] == st[j],
        req matches SpectrumRequest::Gate { gate, .. } ==> (has_named(conds, gate@) ==> r is Gated
            && st2[i].gate == Some(gate@) && st2[i].name == st[i].name && st2[i].channels == st[i].channels
            && st2[i].kind == st[i].kind),
        req matches SpectrumRequest::Gate { gate, .. } ==> (!has_named(conds, gate@) ==> r is Error && st2 == st),
        req is Ungate ==> r is Ungated && st2[i].gate is None && st2[i].name == st[i].name && st2[i].channels
            == st[i].channels && st2[i].kind == st[i].kind,
{
}

proof fn lemma_matching_upto(st: Seq<SpectrumView>, p: Seq<char>, n: int)
    requires
        0 <= n <= st.len(),
    ensures
        forall|k: int|
            0 <= k < matching_upto(st, p, n).len() ==> st.contains(#[trigger] matching_upto(st, p, n)[k])
                && glob_matches(p, matching_upto(st, p, n)[k].name),
        forall|i: int|
            0 <= i < n && glob_matches(p, #[trigger] st[i].name) ==> matching_upto(st, p, n).contains(st[i]),
    decreases n,
{
    if n > 0 {
        lemma_matching_upto(st, p, n - 1);
        let m0 = matching_upto(st, p, n - 1);
        let m = matching_upto(st, p, n);
        if glob_matches(p, st[n - 1].name) {
            assert(m[m0.len() as int] == st[n - 1]);
            assert forall|k: int| 0 <= k < m.len() implies st.contains(#[trigger] m[k]) && glob_matches(p, m[k].name) by {
                if k < m0.len() {
                    assert(m[k] == m0[k]);
                } else {
                    assert(m[k] == st[n - 1]);
                    assert(st.contains(st[n - 1]));
                }
            }
            assert forall|i: int| 0 <= i < n && glob_matches(p, #[trigger] st[i].name) implies m.contains(st[i]) by {
                if i < n - 1 {
                    let k = choose|k: int| 0 <= k < m0.len() && m0[k] == st[i];
                    assert(m[k] == st[i]);
                }
            }
        } else {
            assert(m == m0);
        }
    }
}

/// `e` describes a spectrum of `st` whose name matches `p`.
pub open spec fn describes_matching(st: Seq<SpectrumView>, p: Seq<char>, e: SpectrumProperties) -> bool {
    exists|i: int| 0 <= i < st.len() && glob_matches(p, st[i].name) && properties_of(st[i], e)
}

/// A listing describes exactly the spectra whose names match the
/// pattern: each entry describes a held spectrum whose name matches, and
/// each held spectrum whose name matches is described by an entry.
pub proof fn law_listing_is_matching(st: Seq<SpectrumView>, p: Seq<char>, l: Seq<SpectrumProperties>)
    requires
        listing_of(st, p, l),
    ensures
        forall|k: int| 0 <= k < l.len() ==> #[trigger] describes_matching(st, p, l[k]),
        forall|i: int|
            0 <= i < st.len() && glob_matches(p, #[trigger] st[i].name) ==> exists|k: int|
                0 <= k < l.len() && properties_of(st[i], l[k]),
{
    let m = matching_upto(st, p, st.len() as int);
    lemma_matching_upto(st, p, st.len() as int);
    assert forall|k: int| 0 <= k < l.len() implies #[trigger] describes_matching(st, p, l[k]) by {
        assert(properties_of(m[k], l[k]));
        assert(st.contains(m[k]));
        let i = choose|i: int| 0 <= i < st.len() && st[i] == m[k];
        assert(glob_matches(p, m[k].name));
        assert(glob_matches(p, st[i].name));
        assert(properties_of(st[i], l[k]));
        assert(0 <= i < st.len() && glob_matches(p, st[i].name) && properties_of(st[i], l[k]));
    }
    assert forall|i: int| 0 <= i < st.len() && glob_matches(p, #[trigger] st[i].name) implies exists|k: int|
        0 <= k < l.len() && properties_of(st[i], l[k]) by {
        assert(m.contains(st[i]));
        let k = choose|k: int| 0 <= k < m.len() && m[k] == st[i];
        assert(properties_of(m[k], l[k]));
    }
}

/// What a client makes of the outcome of a transaction: the spectrum reply
/// that came back; a reply for another part of the histogrammer, or a failed
/// send or receive, becomes an error reply.
pub fn spectrum_result(outcome: Result<Reply, String>) -> (r: SpectrumReply)
    ensures
        match outcome {
            Ok(Reply::Spectrum(reply)) => r == reply,
            Ok(_) => r matches SpectrumReply::Error(e) && e@ == "Expected Spectrum reply got something else"@,
            Err(e) => r matches SpectrumReply::Error(m) && m@ == e@,
        },
{
    match outcome {
        Ok(Reply::Spectrum(reply)) => reply,
        Ok(_) => {
            proof {
                reveal_strlit("Expected Spectrum reply got something else");
            }
            SpectrumReply::Error(String::from_str("Expected Spectrum reply got something else"))
        },
        Err(e) => SpectrumReply::Error(e),
    }
}

/// What `empty_result` makes of `reply`.
pub open spec fn empty_gives(reply: SpectrumReply, r: SpectrumServerEmptyResult) -> bool {
    match reply {
        SpectrumReply::Error(s) => r matches Err(e) && e@ == s@,
        _ => r is Ok,
    }
}

/// What a creation, deletion, gating, ungating or clearing makes of the
/// reply: an error reply is the error, any other reply is success.
pub fn empty_result(reply: SpectrumReply) -> (r: SpectrumServerEmptyResult)
    ensures
        empty_gives(reply, r),
{
    match reply {
        SpectrumReply::Error(s) => Err(s),
        _ => Ok(()),
    }
}

/// What `listing_result` makes of `reply`.
pub open spec fn listing_gives(reply: SpectrumReply, r: SpectrumServerListingResult) -> bool {
    match reply {
        SpectrumReply::Error(s) => r matches Err(e) && e@ == s@,
        SpectrumReply::Listing(l) => r == Ok::<Vec<SpectrumProperties>, String>(l),
        _ => r matches Err(e) && e@ == "Unexpected server result for list request"@,
    }
}

/// What a listing makes of the reply.
pub fn listing_result(reply: SpectrumReply) -> (r: SpectrumServerListingResult)
    ensures
        listing_gives(reply, r),
{
    proof {
        reveal_strlit("Unexpected server result for list request");
    }
    match reply {
        SpectrumReply::Error(s) => Err(s),
        SpectrumReply::Listing(l) => Ok(l),
        _ => Err(String::from_str("Unexpected server result for list request")),
    }
}

/// What `contents_result` makes of `reply`.
pub open spec fn contents_gives(reply: SpectrumReply, r: SpectrumServerContentsResult) -> bool {
    match reply {
        SpectrumReply::Error(s) => r matches Err(e) && e@ == s@,
        SpectrumReply::Contents(c) => r == Ok::<SpectrumContents, String>(c),
        _ => r matches Err(e) && e@ == "Unexpected reply type for get_contents"@,
    }
}

/// What a request for contents makes of the reply.
pub fn contents_result(reply: SpectrumReply) -> (r: SpectrumServerContentsResult)
    ensures
        contents_gives(reply, r),
{
    proof {
        reveal_strlit("Unexpected reply type for get_contents");
    }
    match reply {
        SpectrumReply::Error(s) => Err(s),
        SpectrumReply::Contents(c) => Ok(c),
        _ => Err(String::from_str("Unexpected reply type for get_contents")),
    }
}

/// What `processed_result` makes of `reply`.
pub open spec fn processed_gives(reply: SpectrumReply, r: SpectrumServerEmptyResult) -> bool {
    match reply {
        SpectrumReply::Processed => r is Ok,
        SpectrumReply::Error(s) => r matches Err(e) && e@ == s@,
        _ => r matches Err(e) && e@ == "processEvents -unexpected reply type"@,
    }
}

/// What handing over events makes of the reply.
pub fn processed_result(reply: SpectrumReply) -> (r: SpectrumServerEmptyResult)
    ensures
        processed_gives(reply, r),
{
    proof {
        reveal_strlit("processEvents -unexpected reply type");
    }
    match reply {
        SpectrumReply::Processed => Ok(()),
        SpectrumReply::Error(s) => Err(s),
        _ => Err(String::from_str("processEvents -unexpected reply type")),
    }
}

/// What `statistics_result` makes of `reply`.
pub open spec fn statistics_gives(reply: SpectrumReply, r: SpectrumServerStatisticsResult) -> bool {
    match reply {
        SpectrumReply::Statistics(s) => r == Ok::<SpectrumStatistics, String>(s),
        SpectrumReply::Error(s) => r matches Err(e) && e@ == s@,
        _ => r matches Err(e) && e@ == "get_statistics - unexpected reply type"@,
    }
}

/// What a request for statistics makes of the reply.
pub fn statistics_result(reply: SpectrumReply) -> (r: SpectrumServerStatisticsResult)
    ensures
        statistics_gives(reply, r),
{
    proof {
        reveal_strlit("get_statistics - unexpected reply type");
    }
    match reply {
        SpectrumReply::Statistics(s) => Ok(s),
        SpectrumReply::Error(s) => Err(s),
        _ => Err(String::from_str("get_statistics - unexpected reply type")),
    }
}

/// What `fill_result` makes of `reply`.
pub open spec fn fill_gives(reply: SpectrumReply, r: SpectrumServerEmptyResult) -> bool {
    match reply {
        SpectrumReply::Processed => r is Ok,
        SpectrumReply::Error(s) => r matches Err(e) && e@ == s@,
        _ => r matches Err(e) && e@ == "Unexpected reply type in fill_spectrum"@,
    }
}

/// What filling a spectrum makes of the reply.
pub fn fill_result(reply: SpectrumReply) -> (r: SpectrumServerEmptyResult)
    ensures
        fill_gives(reply, r),
{
    proof {
        reveal_strlit("Unexpected reply type in fill_spectrum");
    }
    match reply {
        SpectrumReply::Processed => Ok(()),
        SpectrumReply::Error(s) => Err(s),
        _ => Err(String::from_str("Unexpected reply type in fill_spectrum")),
    }
}

/// What `channel_value_result` makes of `reply`.
pub open spec fn channel_value_gives(reply: SpectrumReply, r: SpectrumChannelResult) -> bool {
    match reply {
        SpectrumReply::ChannelValue(v) => r == Ok::<u64, String>(v),
        SpectrumReply::Error(s) => r matches Err(e) && e@ == s@,
        _ => r matches Err(e) && e@ == "Unexpected reply type in get_channel_value"@,
    }
}

/// What a request for a channel's value makes of the reply.
pub fn channel_value_result(reply: SpectrumReply) -> (r: SpectrumChannelResult)
    ensures
        channel_value_gives(reply, r),
{
    proof {
        reveal_strlit("Unexpected reply type in get_channel_value");
    }
    match reply {
        SpectrumReply::ChannelValue(v) => Ok(v),
        SpectrumReply::Error(s) => Err(s),
        _ => Err(String::from_str("Unexpected reply type in get_channel_value")),
    }
}

/// What `channel_set_result` makes of `reply`.
pub open spec fn channel_set_gives(reply: SpectrumReply, r: SpectrumServerEmptyResult) -> bool {
    match reply {
        SpectrumReply::ChannelSet => r is Ok,
        SpectrumReply::Error(s) => r matches Err(e) && e@ == s@,
        _ => r matches Err(e) && e@ == "Unexpected reply type in set_channel_value"@,
    }
}

/// What setting a channel's value makes of the reply.
pub fn channel_set_result(reply: SpectrumReply) -> (r: SpectrumServerEmptyResult)
    ensures
        channel_set_gives(reply, r),
{
    proof {
        reveal_strlit("Unexpected reply type in set_channel_value");
    }
    match reply {
        SpectrumReply::ChannelSet => Ok(()),
        SpectrumReply::Error(s) => Err(s),
        _ => Err(String::from_str("Unexpected reply type in set_channel_value")),
    }
}

/// A client of the spectrum part of the histogrammer: it holds the channel
/// on which requests are sent and makes a reply channel for each request.
pub struct SpectrumMessageClient {
    req_chan: Sender<Request>,
}

impl SpectrumMessageClient {
    /// The request that creates a 1-d spectrum.
    pub fn create1d_request(name: &str, parameter: &str, low: u64, high: u64, bins: u32) -> (r: SpectrumRequest)
        ensures
            r matches SpectrumRequest::Create1D { name: n, parameter: p, axis: a } && n@ == name@ && p@
                == parameter@ && a == (AxisSpecification { low, high, bins }),
    {
        SpectrumRequest::Create1D {
            name: String::from_str(name),
            parameter: String::from_str(parameter),
            axis: AxisSpecification { low, high, bins },
        }
    }

    /// The request that creates a multiply incremented 1-d spectrum.
    pub fn createmulti1d_request(name: &str, params: &[String], low: u64, high: u64, bins: u32) -> (r:
        SpectrumRequest)
        ensures
            r matches SpectrumRequest::CreateMulti1D { name: n, params: p, axis: a } && n@ == name@
                && same_strings(p@, params@) && a == (AxisSpecification { low, high, bins }),
    {
        SpectrumRequest::CreateMulti1D {
            name: String::from_str(name),
            params: copy_strings(params),
            axis: AxisSpecification { low, high, bins },
        }
    }

    /// The request that creates a multiply incremented 2-d spectrum.
    pub fn createmulti2d_request(
        name: &str,
        params: &[String],
        xlow: u64,
        xhigh: u64,
        xbins: u32,
        ylow: u64,
        yhigh: u64,
        ybins: u32,
    ) -> (r: SpectrumRequest)
        ensures
            r matches SpectrumRequest::CreateMulti2D { name: n, params: p, xaxis: x, yaxis: y } && n@ == name@
                && same_strings(p@, params@) && x == (AxisSpecification { low: xlow, high: xhigh, bins: xbins })
                && y == (AxisSpecification { low: ylow, high: yhigh, bins: ybins }),
    {
        SpectrumRequest::CreateMulti2D {
            name: String::from_str(name),
            params: copy_strings(params),
            xaxis: AxisSpecification { low: xlow, high: xhigh, bins: xbins },
            yaxis: AxisSpecification { low: ylow, high: yhigh, bins: ybins },
        }
    }

    /// The request that creates a particle gamma spectrum.
    pub fn createpgamma_request(
        name: &str,
        xparams: &[String],
        yparams: &[String],
        xlow: u64,
        xhigh: u64,
        xbins: u32,
        ylow: u64,
        yhigh: u64,
        ybins: u32,
    ) -> (r: SpectrumRequest)
        ensures
            r matches SpectrumRequest::CreatePGamma { name: n, xparams: xp, yparams: yp, xaxis: x, yaxis: y }
                && n@ == name@ && same_strings(xp@, xparams@) && same_strings(yp@, yparams@) && x == (
            AxisSpecification { low: xlow, high: xhigh, bins: xbins }) && y == (AxisSpecification {
                low: ylow,
                high: yhigh,
                bins: ybins,
            }),
    {
        SpectrumRequest::CreatePGamma {
            name: String::from_str(name),
            xparams: copy_strings(xparams),
            yparams: copy_strings(yparams),
            xaxis: AxisSpecification { low: xlow, high: xhigh, bins: xbins },
            yaxis: AxisSpecification { low: ylow, high: yhigh, bins: ybins },
        }
    }

    /// The request that creates a summary spectrum.
    pub fn createsummary_request(name: &str, params: &[String], low: u64, high: u64, bins: u32) -> (r:
        SpectrumRequest)
        ensures
            r matches SpectrumRequest::CreateSummary { name: n, params: p, yaxis: a } && n@ == name@
                && same_strings(p@, params@) && a == (AxisSpecification { low, high, bins }),
    {
        SpectrumRequest::CreateSummary {
            name: String::from_str(name),
            params: copy_strings(params),
            yaxis: AxisSpecification { low, high, bins },
        }
    }

    /// The request that creates a 2-d spectrum.
    pub fn create2d_request(
        name: &str,
        xparam: &str,
        yparam: &str,
        xlow: u64,
        xhigh: u64,
        xbins: u32,
        ylow: u64,
        yhigh: u64,
        ybins: u32,
    ) -> (r: SpectrumRequest)
        ensures
            r matches SpectrumRequest::Create2D { name: n, xparam: xp, yparam: yp, xaxis: x, yaxis: y } && n@
                == name@ && xp@ == xparam@ && yp@ == yparam@ && x == (AxisSpecification {
                low: xlow,
                high: xhigh,
                bins: xbins,
            }) && y == (AxisSpecification { low: ylow, high: yhigh, bins: ybins }),
    {
        SpectrumRequest::Create2D {
            name: String::from_str(name),
            xparam: String::from_str(xparam),
            yparam: String::from_str(yparam),
            xaxis: AxisSpecification { low: xlow, high: xhigh, bins: xbins },
            yaxis: AxisSpecification { low: ylow, high: yhigh, bins: ybins },
        }
    }

    /// The request that creates a 2-d spectrum summing several 2-d
    /// spectra.
    pub fn create2dsum_request(
        name: &str,
        xparams: &[String],
        yparams: &[String],
        xlow: u64,
        xhigh: u64,
        xbins: u32,
        ylow: u64,
        yhigh: u64,
        ybins: u32,
    ) -> (r: SpectrumRequest)
        ensures
            r matches SpectrumRequest::Create2DSum { name: n, xparams: xp, yparams: yp, xaxis: x, yaxis: y }
                && n@ == name@ && same_strings(xp@, xparams@) && same_strings(yp@, yparams@) && x == (
            AxisSpecification { low: xlow, high: xhigh, bins: xbins }) && y == (AxisSpecification {
                low: ylow,
                high: yhigh,
                bins: ybins,
            }),
    {
        SpectrumRequest::Create2DSum {
            name: String::from_str(name),
            xparams: copy_strings(xparams),
            yparams: copy_strings(yparams),
            xaxis: AxisSpecification { low: xlow, high: xhigh, bins: xbins },
            yaxis: AxisSpecification { low: ylow, high: yhigh, bins: ybins },
        }
    }

    /// The request that deletes a spectrum.
    pub fn delete_request(name: &str) -> (r: SpectrumRequest)
        ensures
            r matches SpectrumRequest::Delete(n) && n@ == name@,
    {
        SpectrumRequest::Delete(String::from_str(name))
    }

    /// The request that lists the spectra matching a glob pattern.
    pub fn list_request(pattern: &str) -> (r: SpectrumRequest)
        ensures
            r matches SpectrumRequest::List(p) && p@ == pattern@,
    {
        SpectrumRequest::List(String::from_str(pattern))
    }

    /// The request that gates a spectrum with a condition.
    pub fn gate_request(spectrum: &str, condition: &str) -> (r: SpectrumRequest)
        ensures
            r matches SpectrumRequest::Gate { spectrum: s, gate: g } && s@ == spectrum@ && g@ == condition@,
    {
        SpectrumRequest::Gate { spectrum: String::from_str(spectrum), gate: String::from_str(condition) }
    }

    /// The request that ungates a spectrum.
    pub fn ungate_request(name: &str) -> (r: SpectrumRequest)
        ensures
            r matches SpectrumRequest::Ungate(n) && n@ == name@,
    {
        SpectrumRequest::Ungate(String::from_str(name))
    }

    /// The request that clears the spectra matching a glob pattern.
    pub fn clear_request(pattern: &str) -> (r: SpectrumRequest)
        ensures
            r matches SpectrumRequest::Clear(p) && p@ == pattern@,
    {
        SpectrumRequest::Clear(String::from_str(pattern))
    }

    /// The request for the contents of a spectrum within a region.
    pub fn getcontents_request(name: &str, xlow: u64, xhigh: u64, ylow: u64, yhigh: u64) -> (r: SpectrumRequest)
        ensures
            r matches SpectrumRequest::GetContents { name: n, xlow: a, xhigh: b, ylow: c, yhigh: d } && n@
                == name@ && a == xlow && b == xhigh && c == ylow && d == yhigh,
    {
        SpectrumRequest::GetContents { name: String::from_str(name), xlow, xhigh, ylow, yhigh }
    }

    /// The request that hands events to the spectra.
    pub fn events_request(events: &[Event]) -> (r: SpectrumRequest)
        ensures
            r matches SpectrumRequest::Events(e) && event_views(e@) == event_views(events@),
    {
        SpectrumRequest::Events(copy_events(events))
    }

    /// Sends `req` and returns the reply; a failure of the channels or a
    /// reply that is not a spectrum reply is answered as an error.
    fn transact(&self, req: SpectrumRequest) -> SpectrumReply {
        let (reply_send, reply_recv) = new_channel::<Reply>();
        let request = Request::new(reply_send, MessageType::Spectrum(req));
        spectrum_result(request.transaction(&self.req_chan, &reply_recv))
    }

    /// A client that sends its requests along `req_chan`.
    pub fn new(req_chan: &Sender<Request>) -> SpectrumMessageClient {
        SpectrumMessageClient { req_chan: clone_sender(req_chan) }
    }

    /// Creates a 1-d spectrum of `parameter`.
    pub fn create_spectrum_1d(&self, name: &str, parameter: &str, low: u64, high: u64, bins: u32)
        -> (r: SpectrumServerEmptyResult)
        ensures
            exists|rep: SpectrumReply| #[trigger] empty_gives(rep, r),
    {
        empty_result(self.transact(Self::create1d_request(name, parameter, low, high, bins)))
    }

    /// Creates a multiply incremented 1-d spectrum (gamma 1d).
    pub fn create_spectrum_multi1d(&self, name: &str, parameters: &[String], low: u64, high: u64, bins: u32)
        -> (r: SpectrumServerEmptyResult)
        ensures
            exists|rep: SpectrumReply| #[trigger] empty_gives(rep, r),
    {
        empty_result(self.transact(Self::createmulti1d_request(name, parameters, low, high, bins)))
    }

    /// Creates a multiply incremented 2-d spectrum (gamma 2d).
    pub fn create_spectrum_multi2d(
        &self,
        name: &str,
        parameters: &[String],
        xlow: u64,
        xhigh: u64,
        xbins: u32,
        ylow: u64,
        yhigh: u64,
        ybins: u32,
    ) -> (r: SpectrumServerEmptyResult)
        ensures
            exists|rep: SpectrumReply| #[trigger] empty_gives(rep, r),
    {
        empty_result(
            self.transact(Self::createmulti2d_request(name, parameters, xlow, xhigh, xbins, ylow, yhigh, ybins)),
        )
    }

    /// Creates a particle gamma spectrum.
    pub fn create_spectrum_pgamma(
        &self,
        name: &str,
        xparams: &[String],
        yparams: &[String],
        xlow: u64,
        xhigh: u64,
        xbins: u32,
        ylow: u64,
        yhigh: u64,
        ybins: u32,
    ) -> (r: SpectrumServerEmptyResult)
        ensures
            exists|rep: SpectrumReply| #[trigger] empty_gives(rep, r),
    {
        empty_result(
            self.transact(
                Self::createpgamma_request(name, xparams, yparams, xlow, xhigh, xbins, ylow, yhigh, ybins),
            ),
        )
    }

    /// Creates a summary spectrum.
    pub fn create_spectrum_summary(&self, name: &str, params: &[String], low: u64, high: u64, bins: u32)
        -> (r: SpectrumServerEmptyResult)
        ensures
            exists|rep: SpectrumReply| #[trigger] empty_gives(rep, r),
    {
        empty_result(self.transact(Self::createsummary_request(name, params, low, high, bins)))
    }

    /// Creates a 2-d spectrum.
    pub fn create_spectrum_2d(
        &self,
        name: &str,
        xparam: &str,
        yparam: &str,
        xlow: u64,
        xhigh: u64,
        xbins: u32,
        ylow: u64,
        yhigh: u64,
        ybins: u32,
    ) -> (r: SpectrumServerEmptyResult)
        ensures
            exists|rep: SpectrumReply| #[trigger] empty_gives(rep, r),
    {
        empty_result(
            self.transact(Self::create2d_request(name, xparam, yparam, xlow, xhigh, xbins, ylow, yhigh, ybins)),
        )
    }

    /// Creates a 2-d spectrum that sums 2-d spectra (`xparams` and
    /// `yparams` pair up).
    pub fn create_spectrum_2dsum(
        &self,
        name: &str,
        xparams: &[String],
        yparams: &[String],
        xlow: u64,
        xhigh: u64,
        xbins: u32,
        ylow: u64,
        yhigh: u64,
        ybins: u32,
    ) -> (r: SpectrumServerEmptyResult)
        ensures
            exists|rep: SpectrumReply| #[trigger] empty_gives(rep, r),
    {
        empty_result(
            self.transact(
                Self::create2dsum_request(name, xparams, yparams, xlow, xhigh, xbins, ylow, yhigh, ybins),
            ),
        )
    }

    /// Deletes a spectrum.
    pub fn delete_spectrum(&self, name: &str) -> (r: SpectrumServerEmptyResult)
        ensures
            exists|rep: SpectrumReply| #[trigger] empty_gives(rep, r),
    {
        empty_result(self.transact(Self::delete_request(name)))
    }

    /// The descriptions of the spectra whose names match `pattern`.
    pub fn list_spectra(&self, pattern: &str) -> (r: SpectrumServerListingResult)
        ensures
            exists|rep: SpectrumReply| #[trigger] listing_gives(rep, r),
    {
        listing_result(self.transact(Self::list_request(pattern)))
    }

    /// Gates `spectrum` with the condition `gate`.
    pub fn gate_spectrum(&self, spectrum: &str, gate: &str) -> (r: SpectrumServerEmptyResult)
        ensures
            exists|rep: SpectrumReply| #[trigger] empty_gives(rep, r),
    {
        empty_result(self.transact(Self::gate_request(spectrum, gate)))
    }

    /// Makes the spectrum `name` ungated.
    pub fn ungate_spectrum(&self, name: &str) -> (r: SpectrumServerEmptyResult)
        ensures
            exists|rep: SpectrumReply| #[trigger] empty_gives(rep, r),
    {
        empty_result(self.transact(Self::ungate_request(name)))
    }

    /// Clears the spectra whose names match `pattern`.
    pub fn clear_spectra(&self, pattern: &str) -> (r: SpectrumServerEmptyResult)
        ensures
            exists|rep: SpectrumReply| #[trigger] empty_gives(rep, r),
    {
        empty_result(self.transact(Self::clear_request(pattern)))
    }

    /// The non-empty channels of a spectrum within a region of parameter
    /// space.
    pub fn get_contents(&self, name: &str, xlow: u64, xhigh: u64, ylow: u64, yhigh: u64)
        -> (r: SpectrumServerContentsResult)
        ensures
            exists|rep: SpectrumReply| #[trigger] contents_gives(rep, r),
    {
        contents_result(self.transact(Self::getcontents_request(name, xlow, xhigh, ylow, yhigh)))
    }

    /// Hands events to the spectra.
    pub fn process_events(&self, e: &[Event]) -> (r: SpectrumServerEmptyResult)
        ensures
            exists|rep: SpectrumReply| #[trigger] processed_gives(rep, r),
    {
        processed_result(self.transact(Self::events_request(e)))
    }

    /// The underflow and overflow counts of a spectrum.
    pub fn get_statistics(&self, name: &str) -> (r: SpectrumServerStatisticsResult)
        ensures
            exists|rep: SpectrumReply| #[trigger] statistics_gives(rep, r),
    {
        statistics_result(self.transact(SpectrumRequest::GetStats(String::from_str(name))))
    }

    /// Sets the contents of a spectrum (cleared first) from `contents`: each
    /// channel's coordinates select the bin its value goes to.
    pub fn fill_spectrum(&self, name: &str, contents: SpectrumContents) -> (r: SpectrumServerEmptyResult)
        ensures
            exists|rep: SpectrumReply| #[trigger] fill_gives(rep, r),
    {
        fill_result(self.transact(SpectrumRequest::SetContents { name: String::from_str(name), contents }))
    }

    /// The value of a channel (`ychan` for 2-d spectra).
    pub fn get_channel_value(&self, name: &str, xchan: i32, ychan: Option<i32>) -> (r: SpectrumChannelResult)
        ensures
            exists|rep: SpectrumReply| #[trigger] channel_value_gives(rep, r),
    {
        channel_value_result(self.transact(SpectrumRequest::GetChan { name: String::from_str(name), xchan, ychan }))
    }

    /// Sets the value of a channel (`ychan` for 2-d spectra).
    pub fn set_channel_value(&self, name: &str, xchan: i32, ychan: Option<i32>, value: u64)
        -> (r: SpectrumServerEmptyResult)
        ensures
            exists|rep: SpectrumReply| #[trigger] channel_set_gives(rep, r),
    {
        channel_set_result(
            self.transact(SpectrumRequest::SetChan { name: String::from_str(name), xchan, ychan, value }),
        )
    }
}

} // verus!
