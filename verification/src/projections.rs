//! Projections of two-dimensional spectra onto one of their axes: the
//! direction of a projection, the vector the projection is summed into,
//! the spectrum that receives the projection, and the condition that gates
//! it.  Summing the channels and placing the sums on the new axis are
//! floating point computations left to the program.
//!
//! Axis limits are bit patterns of binary64 numbers, as elsewhere in the
//! library.
use vstd::prelude::*;
use crate::conditions::twod::{Contour, point_pairs};
use crate::messaging::condition_messages::{
    ConditionMessageClient,
    ConditionProperties,
    ConditionReply,
    ConditionRequest,
    copy_strings,
    reconstitute_contour,
};
use crate::messaging::spectrum_messages::{
    AxisSpecification,
    SpectrumMessageClient,
    SpectrumProperties,
    SpectrumRequest,
    SpectrumServerListingResult,
    same_strings,
};

verus! {

/// The axis a spectrum is projected onto.
#[derive(Clone, Copy, Debug, PartialEq, Eq)]
pub enum ProjectionDirection {
    X,
    Y,
}

/// The number of bins of the axis `direction` projects onto.
pub open spec fn projected_bins(def: SpectrumProperties, direction: ProjectionDirection) -> nat {
    match direction {
        ProjectionDirection::X => def.xaxis->0.bins as nat,
        ProjectionDirection::Y => def.yaxis->0.bins as nat,
    }
}

/// A vector of zeros (the bit pattern of `0.0`) with one element per bin of
/// the axis the projection goes onto.  Both axes are needed: `Err`
/// otherwise.
pub fn make_sum_vector(def: &SpectrumProperties, direction: ProjectionDirection) -> (r: Result<Vec<u64>, String>)
    ensures
        r is Ok <==> (def.xaxis is Some && def.yaxis is Some),
        r matches Ok(v) ==> v@ == Seq::new(projected_bins(*def, direction), |i: int| 0u64),
        r matches Err(e) ==> e@ == "To project requires an X and a Y axis."@,
{
    proof {
        reveal_strlit("To project requires an X and a Y axis.");
    }
    match (def.xaxis, def.yaxis) {
        (Some(x), Some(y)) => {
            let n: u32 = match direction {
                ProjectionDirection::X => x.bins,
                ProjectionDirection::Y => y.bins,
            };
            let mut result: Vec<u64> = Vec::new();
            let mut i: u32 = 0;
            while i < n
                invariant
                    i <= n,
                    n == projected_bins(*def, direction),
                    result@ == Seq::new(i as nat, |k: int| 0u64),
                decreases n - i,
            {
                result.push(0u64);
                i = i + 1;
                proof {
                    assert(result@ =~= Seq::new(i as nat, |k: int| 0u64));
                }
            }
            Ok(result)
        },
        _ => Err(String::from_str("To project requires an X and a Y axis.")),
    }
}

/// The axis of `desc` that `direction` projects onto.
pub open spec fn projected_axis(desc: SpectrumProperties, direction: ProjectionDirection) -> Option<AxisSpecification> {
    match direction {
        ProjectionDirection::X => desc.xaxis,
        ProjectionDirection::Y => desc.yaxis,
    }
}

/// The names of `v`.
pub open spec fn names_of(v: Seq<String>) -> Seq<Seq<char>> {
    v.map_values(|s: String| s@)
}

/// `base` repeated `n` times, one copy after the other.
pub open spec fn repeated(base: Seq<Seq<char>>, n: nat) -> Seq<Seq<char>>
    decreases n,
{
    if n == 0 {
        Seq::empty()
    } else {
        repeated(base, (n - 1) as nat) + base
    }
}

/// The spectrum a projection is put into.
#[derive(Debug, PartialEq)]
pub enum ProjectionSpectrum {
    /// A 1-d spectrum of this parameter.
    OneD(String),
    /// A multiply incremented 1-d spectrum of these parameters.
    Multi1D(Vec<String>),
}

/// The names of the parameters of a projection spectrum.
pub open spec fn projection_names(p: ProjectionSpectrum) -> Seq<Seq<char>> {
    match p {
        ProjectionSpectrum::OneD(n) => seq![n@],
        ProjectionSpectrum::Multi1D(v) => names_of(v@),
    }
}

/// The kinds of spectra that can be projected.
pub open spec fn projectable(kind: Seq<char>) -> bool {
    kind == "Multi2D"@ || kind == "PGamma"@ || kind == "2D"@ || kind == "2DSum"@
}

/// The parameters of the spectrum that a projection of `desc` in
/// `direction` goes into, given that `desc` is of a kind that can be
/// projected: a multi 2-d spectrum projects into a multi 1-d spectrum of
/// its (x) parameters; a particle gamma spectrum into a multi 1-d spectrum
/// of the parameters of the projected axis, once for each parameter of the
/// other axis (so that it increments as the source did); a 2-d spectrum
/// into a 1-d spectrum of the parameter of the projected axis; a 2-d sum
/// into a multi 1-d spectrum of the parameters of the projected axis.
pub open spec fn projection_parameters(desc: SpectrumProperties, direction: ProjectionDirection) -> (bool, Seq<Seq<char>>) {
    let own = match direction {
        ProjectionDirection::X => names_of(desc.xparams@),
        ProjectionDirection::Y => names_of(desc.yparams@),
    };
    let other_count = match direction {
        ProjectionDirection::X => desc.yparams@.len(),
        ProjectionDirection::Y => desc.xparams@.len(),
    };
    if desc.spectrum_type@ == "Multi2D"@ {
        (false, names_of(desc.xparams@))
    } else if desc.spectrum_type@ == "PGamma"@ {
        (false, repeated(own, other_count))
    } else if desc.spectrum_type@ == "2D"@ {
        (true, seq![own[0]])
    } else {
        (false, own)
    }
}

/// The projection spectrum is built on the parameters of the projected
/// axis: for a 2-d sum spectrum, all the x parameters when projecting onto
/// X and all the y parameters when projecting onto Y, in a multiply
/// incremented 1-d spectrum; for a 2-d spectrum, the single parameter of
/// the projected axis, in a 1-d spectrum; for a multiply incremented 2-d
/// spectrum (whose parameters serve both axes), all its parameters.
pub proof fn law_projection_uses_projected_parameters(desc: SpectrumProperties, direction: ProjectionDirection)
    ensures
        desc.spectrum_type@ == "2DSum"@ ==> projection_parameters(desc, direction) == (
            false,
            match direction {
                ProjectionDirection::X => names_of(desc.xparams@),
                ProjectionDirection::Y => names_of(desc.yparams@),
            },
        ),
        desc.spectrum_type@ == "2D"@ ==> {
            let own = match direction {
                ProjectionDirection::X => desc.xparams@,
                ProjectionDirection::Y => desc.yparams@,
            };
            &&& projection_parameters(desc, direction).0
            &&& projection_parameters(desc, direction).1.len() == 1
            &&& own.len() > 0 ==> projection_parameters(desc, direction).1[0] == own[0]@
        },
        desc.spectrum_type@ == "Multi2D"@ ==> projection_parameters(desc, direction) == (
            false,
            names_of(desc.xparams@),
        ),
{
    reveal_strlit("2DSum");
    reveal_strlit("2D");
    reveal_strlit("Multi2D");
    reveal_strlit("PGamma");
    assert("2DSum"@[0] != "Multi2D"@[0] && "2DSum"@[0] != "PGamma"@[0] && "2DSum"@.len() != "2D"@.len());
    assert("2D"@[0] != "Multi2D"@[0] && "2D"@[0] != "PGamma"@[0]);
    assert("Multi2D"@[0] != "PGamma"@[0]);
    let r = projection_parameters(desc, direction);
    if desc.spectrum_type@ == "2DSum"@ {
        match direction {
            ProjectionDirection::X => {
                assert(r.1 =~= names_of(desc.xparams@));
            },
            ProjectionDirection::Y => {
                assert(r.1 =~= names_of(desc.yparams@));
            },
        }
    }
}

fn append_strings(v: &mut Vec<String>, more: &Vec<String>)
    ensures
        names_of(final(v)@) == names_of(old(v)@) + names_of(more@),
{
    let mut i: usize = 0;
    let ghost start = v@;
    while i < more.len()
        invariant
            i <= more@.len(),
            names_of(v@) == names_of(start) + names_of(more@.take(i as int)),
        decreases more@.len() - i,
    {
        let ghost before = v@;
        let c = more[i].clone();
        v.push(c);
        proof {
            assert(names_of(v@) =~= names_of(before).push(more@[i as int]@));
            assert(names_of(more@.take(i as int + 1)) =~= names_of(more@.take(i as int)).push(more@[i as int]@));
            assert(names_of(v@) =~= names_of(start) + names_of(more@.take(i as int + 1)));
        }
        i = i + 1;
    }
    proof {
        assert(more@.take(more@.len() as int) =~= more@);
    }
}

proof fn lemma_same_strings_names(a: Seq<String>, b: Seq<String>)
    requires
        same_strings(a, b),
    ensures
        names_of(a) == names_of(b),
{
    assert(names_of(a) =~= names_of(b));
}

/// The spectrum that the projection of `desc` in `direction` goes into,
/// with the axis it has: that of the projected axis.  `Err` when `desc`
/// has no such axis, or is not of a kind that can be projected.
pub fn projection_spectrum(desc: &SpectrumProperties, direction: ProjectionDirection) -> (r: Result<
    (ProjectionSpectrum, AxisSpecification),
    String,
>)
    requires
        projected_axis(*desc, direction) is Some && desc.spectrum_type@ == "2D"@ ==> match direction {
            ProjectionDirection::X => desc.xparams@.len() > 0,
            ProjectionDirection::Y => desc.yparams@.len() > 0,
        },
    ensures
        projected_axis(*desc, direction) is None ==> (r matches Err(e) && e@ == match direction {
            ProjectionDirection::X => "Required X axis missing from source spectrum"@,
            ProjectionDirection::Y => "Required Y axis missing from source spectrum"@,
        }),
        projected_axis(*desc, direction) is Some && !projectable(desc.spectrum_type@) ==> (r matches Err(e) && e@
            == desc.spectrum_type@ + " spectra cannot be projected"@),
        projected_axis(*desc, direction) is Some && projectable(desc.spectrum_type@) ==> (r matches Ok(p) && p.1
            == projected_axis(*desc, direction)->0 && (p.0 is OneD) == projection_parameters(*desc, direction).0
            && projection_names(p.0) == projection_parameters(*desc, direction).1),
{
    proof {
        reveal_strlit("Required X axis missing from source spectrum");
        reveal_strlit("Required Y axis missing from source spectrum");
        reveal_strlit(" spectra cannot be projected");
        reveal_strlit("Multi2D");
        reveal_strlit("PGamma");
        reveal_strlit("2D");
        reveal_strlit("2DSum");
    }
    let axis = match direction {
        ProjectionDirection::X => match desc.xaxis {
            Some(a) => a,
            None => {
                return Err(String::from_str("Required X axis missing from source spectrum"));
            },
        },
        ProjectionDirection::Y => match desc.yaxis {
            Some(a) => a,
            None => {
                return Err(String::from_str("Required Y axis missing from source spectrum"));
            },
        },
    };
    let (own, other) = match direction {
        ProjectionDirection::X => (&desc.xparams, &desc.yparams),
        ProjectionDirection::Y => (&desc.yparams, &desc.xparams),
    };
    let kind = &desc.spectrum_type;
    if *kind == String::from_str("Multi2D") {
        let params = copy_strings(desc.xparams.as_slice());
        proof {
            lemma_same_strings_names(params@, desc.xparams@);
        }
        Ok((ProjectionSpectrum::Multi1D(params), axis))
    } else if *kind == String::from_str("PGamma") {
        let mut params: Vec<String> = Vec::new();
        let mut i: usize = 0;
        while i < other.len()
            invariant
                i <= other@.len(),
                names_of(params@) == repeated(names_of(own@), i as nat),
            decreases other@.len() - i,
        {
            append_strings(&mut params, own);
            i = i + 1;
        }
        Ok((ProjectionSpectrum::Multi1D(params), axis))
    } else if *kind == String::from_str("2D") {
        Ok((ProjectionSpectrum::OneD(own[0].clone()), axis))
    } else if *kind == String::from_str("2DSum") {
        let params = copy_strings(own.as_slice());
        proof {
            lemma_same_strings_names(params@, own@);
        }
        Ok((ProjectionSpectrum::Multi1D(params), axis))
    } else {
        Err(kind.clone().concat(" spectra cannot be projected"))
    }
}

/// The request that creates the spectrum `new_name` that the projection
/// of `desc` in `direction` goes into (see `projection_spectrum`): a 1-d or
/// multiply incremented 1-d spectrum on the projected axis, with two bins
/// fewer than that axis has (the histogrammer adds the underflow and
/// overflow bins back).  `Err` as for `projection_spectrum`.
pub fn projection_request(new_name: &str, desc: &SpectrumProperties, direction: ProjectionDirection) -> (r: Result<
    SpectrumRequest,
    String,
>)
    requires
        projected_axis(*desc, direction) is Some && desc.spectrum_type@ == "2D"@ ==> match direction {
            ProjectionDirection::X => desc.xparams@.len() > 0,
            ProjectionDirection::Y => desc.yparams@.len() > 0,
        },
        projected_axis(*desc, direction) matches Some(a) ==> a.bins >= 2,
    ensures
        projected_axis(*desc, direction) is None ==> (r matches Err(e) && e@ == match direction {
            ProjectionDirection::X => "Required X axis missing from source spectrum"@,
            ProjectionDirection::Y => "Required Y axis missing from source spectrum"@,
        }),
        projected_axis(*desc, direction) is Some && !projectable(desc.spectrum_type@) ==> (r matches Err(e) && e@
            == desc.spectrum_type@ + " spectra cannot be projected"@),
        projected_axis(*desc, direction) is Some && projectable(desc.spectrum_type@) ==> ({
            let a = projected_axis(*desc, direction)->0;
            let created = AxisSpecification { low: a.low, high: a.high, bins: (a.bins - 2) as u32 };
            let (one, names) = projection_parameters(*desc, direction);
            &&& one ==> (r matches Ok(SpectrumRequest::Create1D { name, parameter, axis }) && name@ == new_name@
                && parameter@ == names[0] && axis == created)
            &&& !one ==> (r matches Ok(SpectrumRequest::CreateMulti1D { name, params, axis }) && name@ == new_name@
                && names_of(params@) == names && axis == created)
        }),
{
    match projection_spectrum(desc, direction) {
        Err(e) => Err(e),
        Ok((spectrum, axis)) => {
            let bins = axis.bins - 2;
            match spectrum {
                ProjectionSpectrum::OneD(p) => Ok(
                    SpectrumMessageClient::create1d_request(new_name, p.as_str(), axis.low, axis.high, bins),
                ),
                ProjectionSpectrum::Multi1D(ps) => {
                    let req = SpectrumMessageClient::createmulti1d_request(
                        new_name,
                        ps.as_slice(),
                        axis.low,
                        axis.high,
                        bins,
                    );
                    proof {
                        lemma_same_strings_names(req->CreateMulti1D_params@, ps@);
                    }
                    Ok(req)
                },
            }
        },
    }
}

/// Creates the spectrum that the projection goes into, as
/// `projection_request` makes it, and gives back the projected axis, to be
/// filled with the projection.  `Err` when there is no such spectrum or the
/// histogrammer refuses it.
pub fn create_projection_spectrum(
    api: &SpectrumMessageClient,
    new_name: &str,
    desc: &SpectrumProperties,
    direction: ProjectionDirection,
) -> (r: Result<AxisSpecification, String>)
    requires
        projected_axis(*desc, direction) is Some && desc.spectrum_type@ == "2D"@ ==> match direction {
            ProjectionDirection::X => desc.xparams@.len() > 0,
            ProjectionDirection::Y => desc.yparams@.len() > 0,
        },
        projected_axis(*desc, direction) matches Some(a) ==> a.bins >= 2,
    ensures
        r matches Ok(a) ==> projected_axis(*desc, direction) == Some(a) && projectable(desc.spectrum_type@),
        projected_axis(*desc, direction) is None ==> (r matches Err(e) && e@ == match direction {
            ProjectionDirection::X => "Required X axis missing from source spectrum"@,
            ProjectionDirection::Y => "Required Y axis missing from source spectrum"@,
        }),
        projected_axis(*desc, direction) is Some && !projectable(desc.spectrum_type@) ==> (r matches Err(e) && e@
            == desc.spectrum_type@ + " spectra cannot be projected"@),
        !projectable(desc.spectrum_type@) ==> r is Err,
{
    let status = match projection_request(new_name, desc, direction) {
        Err(e) => {
            return Err(e);
        },
        Ok(SpectrumRequest::Create1D { name, parameter, axis }) => api.create_spectrum_1d(
            name.as_str(),
            parameter.as_str(),
            axis.low,
            axis.high,
            axis.bins,
        ),
        Ok(SpectrumRequest::CreateMulti1D { name, params, axis }) => api.create_spectrum_multi1d(
            name.as_str(),
            params.as_slice(),
            axis.low,
            axis.high,
            axis.bins,
        ),
        Ok(_) => {
            proof {
                assert(false);
            }
            return Err(String::new());
        },
    };
    match status {
        Ok(()) => match direction {
            ProjectionDirection::X => Ok(desc.xaxis.unwrap()),
            ProjectionDirection::Y => Ok(desc.yaxis.unwrap()),
        },
        Err(e) => Err(e),
    }
}

/// The name of the condition that gates snapshot spectra.
pub open spec fn snapshot_condition_name() -> Seq<char> {
    "_snapshot_condition_"@
}

/// The condition that gates a projected spectrum named `dest`; the rules
/// are those of `create_projection_gate`.
pub open spec fn projection_gate(
    dest: Seq<char>,
    gate: Option<Seq<char>>,
    contour: Option<Seq<char>>,
    snapshot: bool,
) -> Option<Seq<char>> {
    if snapshot {
        Some(snapshot_condition_name())
    } else {
        match (gate, contour) {
            (None, None) => None,
            (None, Some(c)) => Some(c),
            (Some(g), None) => Some(g),
            (Some(g), Some(c)) => Some("_"@ + dest + "_projection_gate_"@),
        }
    }
}

/// Which condition a projection spectrum is gated on: for a snapshot,
/// the false condition named by `snapshot_condition_name`; else none when
/// the source has no gate and no contour is given, the one of the two that
/// is given, or the `And` named for the destination when both are.
pub proof fn law_projection_gate_rules(
    dest: Seq<char>,
    gate: Option<Seq<char>>,
    contour: Option<Seq<char>>,
    snapshot: bool,
)
    ensures
        snapshot ==> projection_gate(dest, gate, contour, snapshot) == Some("_snapshot_condition_"@),
        !snapshot && gate is None && contour is None ==> projection_gate(dest, gate, contour, snapshot) is None,
        !snapshot && gate is None && contour is Some ==> projection_gate(dest, gate, contour, snapshot) == contour,
        !snapshot && gate is Some && contour is None ==> projection_gate(dest, gate, contour, snapshot) == gate,
        !snapshot && gate is Some && contour is Some ==> projection_gate(dest, gate, contour, snapshot) == Some(
            "_"@ + dest + "_projection_gate_"@,
        ),
{
}

/// The view of an optional string.
pub open spec fn opt_view(s: Option<String>) -> Option<Seq<char>> {
    match s {
        Some(v) => Some(v@),
        None => None,
    }
}

/// Makes the condition that gates the projection spectrum `dest_name` of
/// the spectrum `source_desc`, projected within the contour `contour` (if
/// any), and gives back its name; `None` when the projection is not gated.
///
/// * A snapshot never increments: it is gated by the false condition
///   `_snapshot_condition_`, which is created (or replaced) here.
/// * Otherwise the projection is gated like its source, and within the
///   contour: by the source's gate, by the contour, or, when there are
///   both, by the `And` of the two, created here as
///   `_<dest_name>_projection_gate_`.
///
/// The condition asked for is the one `projection_gate_request` gives; what
/// the histogrammer answers to its creation is not looked at.
pub fn create_projection_gate(
    gapi: &ConditionMessageClient,
    dest_name: &str,
    source_desc: &SpectrumProperties,
    contour: Option<String>,
    snapshot: bool,
) -> (r: Option<String>)
    ensures
        opt_view(r) == projection_gate(dest_name@, opt_view(source_desc.gate), opt_view(contour), snapshot),
{
    proof {
        reveal_strlit("_snapshot_condition_");
        reveal_strlit("_");
        reveal_strlit("_projection_gate_");
    }
    match projection_gate_request(dest_name, &source_desc.gate, &contour, snapshot) {
        Some(ConditionRequest::CreateFalse(n)) => {
            gapi.create_false_condition(n.as_str());
        },
        Some(ConditionRequest::CreateAnd { name, dependents }) => {
            gapi.create_and_condition(name.as_str(), dependents.as_slice());
        },
        _ => {},
    }
    if snapshot {
        return Some(String::from_str("_snapshot_condition_"));
    }
    match (&source_desc.gate, contour) {
        (None, None) => None,
        (None, Some(c)) => Some(c),
        (Some(g), None) => Some(g.clone()),
        (Some(_), Some(_)) => Some(String::from_str("_").concat(dest_name).concat("_projection_gate_")),
    }
}

/// The condition request that `create_projection_gate` hands to the
/// histogrammer for the projection spectrum `dest_name`: the false
/// condition `_snapshot_condition_` for a snapshot; else, when the source
/// is gated by `gate` and the projection is made within `contour`, the
/// `And` condition `_<dest_name>_projection_gate_` of `[gate, contour]`, in
/// that order; else none.
pub fn projection_gate_request(
    dest_name: &str,
    gate: &Option<String>,
    contour: &Option<String>,
    snapshot: bool,
) -> (r: Option<ConditionRequest>)
    ensures
        snapshot ==> (r matches Some(ConditionRequest::CreateFalse(n)) && n@ == snapshot_condition_name()),
        !snapshot && gate is Some && contour is Some ==> (r matches Some(
            ConditionRequest::CreateAnd { name, dependents },
        ) && name@ == "_"@ + dest_name@ + "_projection_gate_"@ && dependents@.len() == 2 && dependents@[0]@
            == gate->0@ && dependents@[1]@ == contour->0@),
        !snapshot && !(gate is Some && contour is Some) ==> r is None,
{
    proof {
        reveal_strlit("_snapshot_condition_");
        reveal_strlit("_");
        reveal_strlit("_projection_gate_");
    }
    if snapshot {
        return Some(ConditionMessageClient::make_false_creation("_snapshot_condition_"));
    }
    match (gate, contour) {
        (Some(g), Some(c)) => {
            let and_name = String::from_str("_").concat(dest_name).concat("_projection_gate_");
            let mut components: Vec<String> = Vec::new();
            components.push(g.clone());
            components.push(c.clone());
            Some(ConditionMessageClient::make_and_creation(and_name.as_str(), components.as_slice()))
        },
        _ => None,
    }
}

/// The description of the spectrum `source` to project, from the
/// histogrammer's listing of `source`: it must name exactly one spectrum.
pub fn source_description(listing: SpectrumServerListingResult, source: &str) -> (r: Result<
    SpectrumProperties,
    String,
>)
    ensures
        match listing {
            Err(s) => r matches Err(e) && e@ == "Could not get source spectrum info from histogram service: "@ + s@,
            Ok(v) => if v@.len() == 1 {
                r == Ok::<SpectrumProperties, String>(v@[0])
            } else {
                r matches Err(e) && e@ == source@ + " does not specify a unique spectrum"@
            },
        },
{
    proof {
        reveal_strlit("Could not get source spectrum info from histogram service: ");
        reveal_strlit(" does not specify a unique spectrum");
    }
    match listing {
        Err(s) => Err(String::from_str("Could not get source spectrum info from histogram service: ").concat(s.as_str())),
        Ok(mut v) => {
            if v.len() == 1 {
                Ok(v.remove(0))
            } else {
                Err(String::from_str(source).concat(" does not specify a unique spectrum"))
            }
        },
    }
}

/// The contour that limits a projection to the region of interest `roi`,
/// from the histogrammer's listing of `roi`: it must name exactly one
/// condition, and that a contour.
pub fn roi_contour(reply: ConditionReply, roi: &str) -> (r: Result<Contour, String>)
    ensures
        match reply {
            ConditionReply::Error(s) => r matches Err(e) && e@ == "Could not get info for ROI "@ + s@,
            ConditionReply::Listing(p) => if p@.len() == 1 {
                &&& r is Ok <==> p@[0].cond_type@ == "Contour"@ && p@[0].points@.len() >= 3
                &&& r matches Ok(c) ==> c.spec_parameters() == (0u32, 1u32) && point_pairs(c.spec_points())
                    == p@[0].points@
                &&& p@[0].cond_type@ != "Contour"@ ==> (r matches Err(e) && e@ == "Could not recontitute "@ + roi@
                    + " as a contoure "@ + "Error reconstituting a contour - input is not a contour"@)
                &&& p@[0].cond_type@ == "Contour"@ && p@[0].points@.len() < 3 ==> (r matches Err(e) && e@
                    == "Could not recontitute "@ + roi@ + " as a contoure "@
                    + "Failed to reconstitute contour in constructor - maybe too few points?"@)
            } else {
                r matches Err(e) && e@ == roi@ + " does not uniquely identify a condition"@
            },
            _ => r matches Err(e) && e@ == "Could not get info for ROI"@,
        },
{
    proof {
        reveal_strlit("Could not get info for ROI ");
        reveal_strlit("Could not get info for ROI");
        reveal_strlit(" does not uniquely identify a condition");
        reveal_strlit("Could not recontitute ");
        reveal_strlit(" as a contoure ");
    }
    match reply {
        ConditionReply::Error(s) => Err(String::from_str("Could not get info for ROI ").concat(s.as_str())),
        ConditionReply::Listing(mut p) => {
            if p.len() != 1 {
                return Err(String::from_str(roi).concat(" does not uniquely identify a condition"));
            }
            let props: ConditionProperties = p.remove(0);
            match reconstitute_contour(props) {
                Ok(c) => Ok(c),
                Err(s) => Err(String::from_str("Could not recontitute ").concat(roi).concat(" as a contoure ").concat(
                    s.as_str(),
                )),
            }
        },
        _ => Err(String::from_str("Could not get info for ROI")),
    }
}

} // verus!
