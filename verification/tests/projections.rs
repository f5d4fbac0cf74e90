use rustogrammer::messaging::condition_messages::{ConditionMessageClient, ConditionProperties, ConditionReply};
use rustogrammer::messaging::spectrum_messages::{AxisSpecification, SpectrumMessageClient, SpectrumProperties};
use rustogrammer::messaging::Request;
use rustogrammer::projections::{
    create_projection_gate, create_projection_spectrum, make_sum_vector, projection_gate_request, projection_request,
    projection_spectrum, roi_contour, source_description, ProjectionDirection, ProjectionSpectrum,
};
use rustogrammer::messaging::condition_messages::ConditionRequest;
use rustogrammer::messaging::spectrum_messages::SpectrumRequest;
use std::sync::mpsc::channel;

fn axis(low: f64, high: f64, bins: u32) -> AxisSpecification {
    AxisSpecification { low: low.to_bits(), high: high.to_bits(), bins }
}

fn props(xaxis: Option<AxisSpecification>, yaxis: Option<AxisSpecification>, gate: Option<&str>) -> SpectrumProperties {
    SpectrumProperties {
        name: String::from("test"),
        spectrum_type: String::from("1d"),
        xparams: vec![],
        yparams: vec![],
        xaxis,
        yaxis,
        gate: gate.map(String::from),
    }
}

#[test]
fn invalid_1() {
    let p = props(Some(axis(0.0, 1024.0, 1024)), None, None);
    assert!(make_sum_vector(&p, ProjectionDirection::X).is_err());
}

#[test]
fn invalid_2() {
    let p = props(Some(axis(0.0, 1024.0, 1024)), None, None);
    assert!(make_sum_vector(&p, ProjectionDirection::Y).is_err());
}

#[test]
fn invalid_3() {
    let p = props(None, Some(axis(0.0, 1024.0, 1024)), None);
    assert!(make_sum_vector(&p, ProjectionDirection::X).is_err());
    assert_eq!(
        Err(String::from("To project requires an X and a Y axis.")),
        make_sum_vector(&p, ProjectionDirection::Y)
    );
}

#[test]
fn projections_ok_1() {
    let p = props(Some(axis(0.0, 1024.0, 512)), Some(axis(0.0, 1024.0, 1024)), None);
    assert!(make_sum_vector(&p, ProjectionDirection::X).is_ok());
    assert!(make_sum_vector(&p, ProjectionDirection::Y).is_ok());
}

#[test]
fn projections_ok_2() {
    let p = props(Some(axis(0.0, 1024.0, 512)), Some(axis(0.0, 1024.0, 1024)), None);
    let v = make_sum_vector(&p, ProjectionDirection::X).expect("could not make x projection vector");
    assert_eq!(p.xaxis.unwrap().bins as usize, v.len());
    assert!(v.iter().all(|b| f64::from_bits(*b) == 0.0));
}

#[test]
fn projections_ok_3() {
    let p = props(Some(axis(0.0, 1024.0, 512)), Some(axis(0.0, 1024.0, 1024)), None);
    let v = make_sum_vector(&p, ProjectionDirection::Y).expect("could not make y projection vector");
    assert_eq!(p.yaxis.unwrap().bins as usize, v.len());
}

// Gating a projected spectrum.  No histogrammer is running: its answers
// to the condition creations are not looked at.

fn client() -> ConditionMessageClient {
    let (send, recv) = channel::<Request>();
    drop(recv);
    ConditionMessageClient::new(&send)
}

fn both_axes(gate: Option<&str>) -> SpectrumProperties {
    props(Some(axis(0.0, 1024.0, 512)), Some(axis(0.0, 1024.0, 512)), gate)
}

#[test]
fn make_gate_1() {
    assert!(create_projection_gate(&client(), "proj", &both_axes(None), None, false).is_none());
}

#[test]
fn make_gate_2() {
    let r = create_projection_gate(&client(), "proj", &both_axes(None), None, true);
    assert_eq!(Some(String::from("_snapshot_condition_")), r);
}

#[test]
fn make_gate_3() {
    let r = create_projection_gate(&client(), "proj", &both_axes(None), Some(String::from("contour")), true);
    assert_eq!(Some(String::from("_snapshot_condition_")), r);
}

#[test]
fn make_gate_4() {
    let r = create_projection_gate(&client(), "proj", &both_axes(Some("true")), Some(String::from("contour")), true);
    assert_eq!(Some(String::from("_snapshot_condition_")), r);
}

#[test]
fn make_gate_5() {
    let r = create_projection_gate(&client(), "proj", &both_axes(None), Some(String::from("contour")), false);
    assert_eq!(Some(String::from("contour")), r);
}

#[test]
fn make_gate_6() {
    let r = create_projection_gate(&client(), "proj", &both_axes(Some("true")), None, false);
    assert_eq!(Some(String::from("true")), r);
}

#[test]
fn make_gate_7() {
    let r = create_projection_gate(&client(), "proj", &both_axes(Some("true")), Some(String::from("contour")), false);
    assert_eq!(Some(String::from("_proj_projection_gate_")), r);
}

// The spectrum a projection goes into.

fn typed(kind: &str, xparams: &[&str], yparams: &[&str]) -> SpectrumProperties {
    SpectrumProperties {
        name: String::from("src"),
        spectrum_type: String::from(kind),
        xparams: xparams.iter().map(|s| String::from(*s)).collect(),
        yparams: yparams.iter().map(|s| String::from(*s)).collect(),
        xaxis: Some(axis(0.0, 100.0, 102)),
        yaxis: Some(axis(-1.0, 1.0, 12)),
        gate: None,
    }
}

fn names(v: &[&str]) -> Vec<String> {
    v.iter().map(|s| String::from(*s)).collect()
}

#[test]
fn projection_of_2d() {
    let d = typed("2D", &["px"], &["py"]);
    let (s, a) = projection_spectrum(&d, ProjectionDirection::Y).unwrap();
    assert_eq!(ProjectionSpectrum::OneD(String::from("py")), s);
    assert_eq!(axis(-1.0, 1.0, 12), a);
}

#[test]
fn projection_of_multi2d_uses_its_parameters() {
    let d = typed("Multi2D", &["a", "b", "c"], &[]);
    let (s, a) = projection_spectrum(&d, ProjectionDirection::Y).unwrap();
    assert_eq!(ProjectionSpectrum::Multi1D(names(&["a", "b", "c"])), s);
    assert_eq!(axis(-1.0, 1.0, 12), a);
}

#[test]
fn projection_of_pgamma_repeats_parameters() {
    let d = typed("PGamma", &["x1", "x2"], &["y1", "y2", "y3"]);
    let (s, _) = projection_spectrum(&d, ProjectionDirection::X).unwrap();
    assert_eq!(ProjectionSpectrum::Multi1D(names(&["x1", "x2", "x1", "x2", "x1", "x2"])), s);
    let (s, _) = projection_spectrum(&d, ProjectionDirection::Y).unwrap();
    assert_eq!(ProjectionSpectrum::Multi1D(names(&["y1", "y2", "y3", "y1", "y2", "y3"])), s);
}

#[test]
fn projection_of_2dsum() {
    let d = typed("2DSum", &["x1", "x2"], &["y1", "y2"]);
    let (s, a) = projection_spectrum(&d, ProjectionDirection::X).unwrap();
    assert_eq!(ProjectionSpectrum::Multi1D(names(&["x1", "x2"])), s);
    assert_eq!(axis(0.0, 100.0, 102), a);
}

#[test]
fn projection_refusals() {
    let d = typed("1D", &["p"], &[]);
    assert_eq!(Err(String::from("1D spectra cannot be projected")), projection_spectrum(&d, ProjectionDirection::X));
    let mut d = typed("2D", &["px"], &["py"]);
    d.yaxis = None;
    assert_eq!(
        Err(String::from("Required Y axis missing from source spectrum")),
        projection_spectrum(&d, ProjectionDirection::Y)
    );
    d.xaxis = None;
    assert_eq!(
        Err(String::from("Required X axis missing from source spectrum")),
        projection_spectrum(&d, ProjectionDirection::X)
    );
}

#[test]
fn creating_projection_needs_histogrammer() {
    let (send, recv) = channel::<Request>();
    drop(recv);
    let api = SpectrumMessageClient::new(&send);
    let d = typed("2D", &["px"], &["py"]);
    assert_eq!(
        Err(String::from("Send to histogramer failed!")),
        create_projection_spectrum(&api, "proj", &d, ProjectionDirection::X)
    );
    let d = typed("Summary", &["px"], &["py"]);
    assert_eq!(
        Err(String::from("Summary spectra cannot be projected")),
        create_projection_spectrum(&api, "proj", &d, ProjectionDirection::X)
    );
}

#[test]
fn source_must_be_unique() {
    let p = props(Some(axis(0.0, 1.0, 10)), Some(axis(0.0, 1.0, 10)), None);
    assert_eq!(Ok(p.clone()), source_description(Ok(vec![p.clone()]), "test"));
    assert_eq!(
        Err(String::from("test does not specify a unique spectrum")),
        source_description(Ok(vec![p.clone(), p.clone()]), "test")
    );
    assert_eq!(Err(String::from("test does not specify a unique spectrum")), source_description(Ok(vec![]), "test"));
    assert_eq!(
        Err(String::from("Could not get source spectrum info from histogram service: gone")),
        source_description(Err(String::from("gone")), "test")
    );
}

fn cprops(kind: &str, points: &[(f64, f64)]) -> ConditionProperties {
    ConditionProperties {
        cond_name: String::from("roi"),
        cond_type: String::from(kind),
        points: points.iter().map(|(x, y)| (x.to_bits(), y.to_bits())).collect(),
        gates: vec![],
        parameters: vec![3, 4],
    }
}

#[test]
fn roi_must_be_one_contour() {
    let tri = [(0.0, 0.0), (10.0, 0.0), (5.0, 10.0)];
    let c = roi_contour(ConditionReply::Listing(vec![cprops("Contour", &tri)]), "roi").expect("a contour");
    assert_eq!(vec![0, 1], c.dependent_parameters());
    assert_eq!(3, c.get_points().len());
    assert_eq!(
        Err(String::from("roi does not uniquely identify a condition")),
        roi_contour(ConditionReply::Listing(vec![]), "roi").map(|_| ())
    );
    assert_eq!(
        Err(String::from("Could not recontitute roi as a contoure Error reconstituting a contour - input is not a contour")),
        roi_contour(ConditionReply::Listing(vec![cprops("Band", &tri)]), "roi").map(|_| ())
    );
    assert_eq!(
        Err(String::from(
            "Could not recontitute roi as a contoure Failed to reconstitute contour in constructor - maybe too few points?"
        )),
        roi_contour(ConditionReply::Listing(vec![cprops("Contour", &tri[0..2])]), "roi").map(|_| ())
    );
    assert_eq!(
        Err(String::from("Could not get info for ROI no such")),
        roi_contour(ConditionReply::Error(String::from("no such")), "roi").map(|_| ())
    );
    assert_eq!(
        Err(String::from("Could not get info for ROI")),
        roi_contour(ConditionReply::Deleted, "roi").map(|_| ())
    );
}

#[test]
fn projection_requests() {
    let d = typed("2D", &["px"], &["py"]);
    assert_eq!(
        Ok(SpectrumRequest::Create1D { name: String::from("p"), parameter: String::from("px"), axis: axis(0.0, 100.0, 100) }),
        projection_request("p", &d, ProjectionDirection::X)
    );
    let d = typed("PGamma", &["a", "b"], &["c"]);
    assert_eq!(
        Ok(SpectrumRequest::CreateMulti1D { name: String::from("p"), params: names(&["c", "c"]), axis: axis(-1.0, 1.0, 10) }),
        projection_request("p", &d, ProjectionDirection::Y)
    );
    let mut d = typed("2D", &[], &[]);
    d.xaxis = None;
    assert_eq!(
        Err(String::from("Required X axis missing from source spectrum")),
        projection_request("p", &d, ProjectionDirection::X)
    );
    assert_eq!(
        Err(String::from("Required X axis missing from source spectrum")),
        projection_spectrum(&d, ProjectionDirection::X).map(|_| ())
    );
}

#[test]
fn projection_gate_requests() {
    let g = Some(String::from("g"));
    let c = Some(String::from("c"));
    assert_eq!(
        Some(ConditionRequest::CreateFalse(String::from("_snapshot_condition_"))),
        projection_gate_request("d", &g, &c, true)
    );
    assert_eq!(
        Some(ConditionRequest::CreateAnd { name: String::from("_d_projection_gate_"), dependents: names(&["g", "c"]) }),
        projection_gate_request("d", &g, &c, false)
    );
    assert_eq!(None, projection_gate_request("d", &g, &None, false));
    assert_eq!(None, projection_gate_request("d", &None, &c, false));
    assert_eq!(None, projection_gate_request("d", &None, &None, false));
}
