use rustogrammer::conditions::{Condition, ConditionDictionary, True};
use rustogrammer::messaging::spectrum_messages::{
    AxisSpecification, Channel, ChannelType, SpectrumProcessor, SpectrumProperties, SpectrumReply, SpectrumRequest,
};
use rustogrammer::parameters::{EventParameter, FlatEvent, ParameterDictionary};
use rustogrammer::spectra::{Fill, XFill};

fn bits(v: f64) -> u64 {
    v.to_bits()
}

fn axis(low: f64, high: f64, bins: u32) -> AxisSpecification {
    AxisSpecification { low: bits(low), high: bits(high), bins }
}

fn strings(v: &[&str]) -> Vec<String> {
    v.iter().map(|s| String::from(*s)).collect()
}

struct TestObjects {
    processor: SpectrumProcessor,
    parameters: ParameterDictionary,
    conditions: ConditionDictionary,
}

fn make_test_objs() -> TestObjects {
    TestObjects { processor: SpectrumProcessor::new(), parameters: ParameterDictionary::new(), conditions: ConditionDictionary::new() }
}

fn make_some_params(to: &mut TestObjects) {
    for i in 0..10 {
        to.parameters.add(&format!("param.{}", i)).unwrap();
    }
}

fn request(to: &mut TestObjects, req: SpectrumRequest) -> SpectrumReply {
    to.processor.process_request(req, &to.parameters, &mut to.conditions)
}

fn is_error(r: &SpectrumReply) -> bool {
    matches!(r, SpectrumReply::Error(_))
}

fn listing(to: &mut TestObjects, pattern: &str) -> Vec<SpectrumProperties> {
    match request(to, SpectrumRequest::List(String::from(pattern))) {
        SpectrumReply::Listing(l) => l,
        r => panic!("not a listing: {:?}", r),
    }
}

fn only(to: &mut TestObjects, name: &str) -> SpectrumProperties {
    let l = listing(to, name);
    assert_eq!(1, l.len());
    l[0].clone()
}

fn is_listed(to: &mut TestObjects, name: &str) -> bool {
    listing(to, name).len() == 1
}

fn index_of(to: &TestObjects, name: &str) -> usize {
    to.processor.find(name).expect("missing spectrum")
}

fn create1d(to: &mut TestObjects, name: &str, param: &str, low: f64, high: f64, bins: u32) -> SpectrumReply {
    request(to, SpectrumRequest::Create1D { name: String::from(name), parameter: String::from(param), axis: axis(low, high, bins) })
}

fn create2d(to: &mut TestObjects, name: &str, xp: &str, yp: &str, x: AxisSpecification, y: AxisSpecification) -> SpectrumReply {
    request(
        to,
        SpectrumRequest::Create2D { name: String::from(name), xparam: String::from(xp), yparam: String::from(yp), xaxis: x, yaxis: y },
    )
}

fn getchan(to: &mut TestObjects, name: &str, xchan: i32, ychan: Option<i32>) -> SpectrumReply {
    request(to, SpectrumRequest::GetChan { name: String::from(name), xchan, ychan })
}

fn setchan(to: &mut TestObjects, name: &str, xchan: i32, ychan: Option<i32>, value: f64) -> SpectrumReply {
    request(to, SpectrumRequest::SetChan { name: String::from(name), xchan, ychan, value: bits(value) })
}

/// Puts `value` into channel `(xi, yi)` of the grid, as a fill does.
fn put(to: &mut TestObjects, name: &str, xi: usize, yi: usize, value: f64) {
    let i = index_of(to, name);
    assert!(to.processor.record_fill(i, xi, yi, bits(value)));
}

#[test]
fn spectrum_messages_new_1() {
    let mut to = make_test_objs();
    assert_eq!(0, to.processor.len());
    assert_eq!(0, listing(&mut to, "*").len());
}

#[test]
fn create1d_1() {
    let mut to = make_test_objs();
    make_some_params(&mut to);
    assert_eq!(SpectrumReply::Created, create1d(&mut to, "test", "param.1", 0.0, 1024.0, 1024));
    let p = only(&mut to, "test");
    assert_eq!("test", p.name);
    assert_eq!("1D", p.spectrum_type);
    assert_eq!(strings(&["param.1"]), p.xparams);
    assert_eq!(0, p.yparams.len());
    assert_eq!(Some(axis(0.0, 1024.0, 1026)), p.xaxis);
    assert!(p.yaxis.is_none());
    assert!(p.gate.is_none());
}

#[test]
fn create1d_2() {
    let mut to = make_test_objs();
    make_some_params(&mut to);
    let r = create1d(&mut to, "test", "param.166", 0.0, 1024.0, 1024);
    assert!(is_error(&r));
    assert_eq!(SpectrumReply::Error(String::from("Parameter param.166 does not exist")), r);
}

#[test]
fn create1d_3() {
    let mut to = make_test_objs();
    make_some_params(&mut to);
    assert_eq!(SpectrumReply::Created, create1d(&mut to, "test", "param.1", 0.0, 1024.0, 1024));
    let r = create1d(&mut to, "test", "param.1", 0.0, 1024.0, 1024);
    assert_eq!(SpectrumReply::Error(String::from("Spectrum test already exists")), r);
    assert!(is_listed(&mut to, "test"));
}

fn multi1(to: &mut TestObjects, params: &[&str]) -> SpectrumReply {
    request(
        to,
        SpectrumRequest::CreateMulti1D { name: String::from("test"), params: strings(params), axis: axis(0.0, 1024.0, 1024) },
    )
}

#[test]
fn createmulti1_1() {
    let mut to = make_test_objs();
    make_some_params(&mut to);
    let params = ["param.1", "param.2", "param.3", "param.4", "param.5", "param.6"];
    assert_eq!(SpectrumReply::Created, multi1(&mut to, &params));
    let p = only(&mut to, "test");
    assert_eq!("Multi1d", p.spectrum_type);
    assert_eq!(strings(&params), p.xparams);
    assert_eq!(0, p.yparams.len());
    assert_eq!(Some(axis(0.0, 1024.0, 1026)), p.xaxis);
    assert!(p.yaxis.is_none());
    assert!(p.gate.is_none());
}

#[test]
fn createmulti1_2() {
    let mut to = make_test_objs();
    make_some_params(&mut to);
    assert!(is_error(&multi1(&mut to, &["param.1", "param.2", "param.3", "param.4", "param.5", "param.16"])));
}

#[test]
fn createmulti_3() {
    let mut to = make_test_objs();
    make_some_params(&mut to);
    let params = ["param.1", "param.2", "param.3"];
    assert_eq!(SpectrumReply::Created, multi1(&mut to, &params));
    assert!(is_error(&multi1(&mut to, &params)));
    assert!(is_listed(&mut to, "test"));
}

fn multi2(to: &mut TestObjects, params: &[&str]) -> SpectrumReply {
    request(
        to,
        SpectrumRequest::CreateMulti2D {
            name: String::from("test"),
            params: strings(params),
            xaxis: axis(0.0, 1024.0, 1024),
            yaxis: axis(-512.0, 512.0, 1024),
        },
    )
}

#[test]
fn createmult2_1() {
    let mut to = make_test_objs();
    make_some_params(&mut to);
    let params = ["param.1", "param.2", "param.3", "param.4", "param.5", "param.6"];
    assert_eq!(SpectrumReply::Created, multi2(&mut to, &params));
    let p = only(&mut to, "test");
    assert_eq!("Multi2d", p.spectrum_type);
    assert_eq!(strings(&params), p.xparams);
    assert_eq!(0, p.yparams.len());
    assert_eq!(Some(axis(0.0, 1024.0, 1026)), p.xaxis);
    assert_eq!(Some(axis(-512.0, 512.0, 1026)), p.yaxis);
    assert!(p.gate.is_none());
}

#[test]
fn creatmult2_2() {
    let mut to = make_test_objs();
    make_some_params(&mut to);
    assert!(is_error(&multi2(&mut to, &["param.1", "param.2", "param.13"])));
}

#[test]
fn createmult2_3() {
    let mut to = make_test_objs();
    make_some_params(&mut to);
    assert_eq!(SpectrumReply::Created, multi2(&mut to, &["param.1", "param.2"]));
    assert!(is_error(&multi2(&mut to, &["param.1", "param.2"])));
    assert!(is_listed(&mut to, "test"));
}

fn pgamma(to: &mut TestObjects, x: &[&str], y: &[&str]) -> SpectrumReply {
    request(
        to,
        SpectrumRequest::CreatePGamma {
            name: String::from("test"),
            xparams: strings(x),
            yparams: strings(y),
            xaxis: axis(0.0, 4096.0, 512),
            yaxis: axis(-1.0, 1.0, 100),
        },
    )
}

#[test]
fn createpgamma_1() {
    let mut to = make_test_objs();
    make_some_params(&mut to);
    let x = ["param.0", "param.2", "param.4", "param.6"];
    let y = ["param.1", "param.3", "param.5", "param.7"];
    assert_eq!(SpectrumReply::Created, pgamma(&mut to, &x, &y));
    let p = only(&mut to, "test");
    assert_eq!("PGamma", p.spectrum_type);
    assert_eq!(strings(&x), p.xparams);
    assert_eq!(strings(&y), p.yparams);
    assert_eq!(Some(axis(0.0, 4096.0, 514)), p.xaxis);
    assert_eq!(Some(axis(-1.0, 1.0, 102)), p.yaxis);
    assert!(p.gate.is_none());
}

#[test]
fn createpgamma_2() {
    let mut to = make_test_objs();
    make_some_params(&mut to);
    assert!(is_error(&pgamma(&mut to, &["param.0", "param.12"], &["param.1", "param.3"])));
}

#[test]
fn createpgamma_3() {
    let mut to = make_test_objs();
    make_some_params(&mut to);
    assert!(is_error(&pgamma(&mut to, &["param.0", "param.2"], &["param.1", "param.13"])));
}

#[test]
fn createpgamma_4() {
    let mut to = make_test_objs();
    make_some_params(&mut to);
    assert_eq!(SpectrumReply::Created, pgamma(&mut to, &["param.0"], &["param.1"]));
    assert!(is_error(&pgamma(&mut to, &["param.0"], &["param.1"])));
    assert!(is_listed(&mut to, "test"));
}

fn summary(to: &mut TestObjects, params: &[&str]) -> SpectrumReply {
    request(to, SpectrumRequest::CreateSummary { name: String::from("test"), params: strings(params), yaxis: axis(0.0, 1.0, 100) })
}

#[test]
fn crsummary_1() {
    let mut to = make_test_objs();
    make_some_params(&mut to);
    let params = ["param.1", "param.2", "param.4", "param.8"];
    assert_eq!(SpectrumReply::Created, summary(&mut to, &params));
    let p = only(&mut to, "test");
    assert_eq!("Summary", p.spectrum_type);
    assert_eq!(strings(&params), p.xparams);
    assert_eq!(0, p.yparams.len());
    assert!(p.xaxis.is_none());
    assert_eq!(Some(axis(0.0, 1.0, 102)), p.yaxis);
    assert!(p.gate.is_none());
}

#[test]
fn crsummary_2() {
    let mut to = make_test_objs();
    make_some_params(&mut to);
    assert!(is_error(&summary(&mut to, &["param.1", "param.2", "param.14", "param.8"])));
}

#[test]
fn crsummary_3() {
    let mut to = make_test_objs();
    make_some_params(&mut to);
    assert_eq!(SpectrumReply::Created, summary(&mut to, &["param.1"]));
    assert!(is_error(&summary(&mut to, &["param.1"])));
    assert!(is_listed(&mut to, "test"));
}

#[test]
fn cr2d_1() {
    let mut to = make_test_objs();
    make_some_params(&mut to);
    assert_eq!(SpectrumReply::Created, create2d(&mut to, "test", "param.5", "param.7", axis(-10.0, 10.0, 100), axis(0.0, 1024.0, 256)));
    let p = only(&mut to, "test");
    assert_eq!("2D", p.spectrum_type);
    assert_eq!(strings(&["param.5"]), p.xparams);
    assert_eq!(strings(&["param.7"]), p.yparams);
    assert_eq!(Some(axis(-10.0, 10.0, 102)), p.xaxis);
    assert_eq!(Some(axis(0.0, 1024.0, 258)), p.yaxis);
    assert!(p.gate.is_none());
}

#[test]
fn cr2d_2() {
    let mut to = make_test_objs();
    make_some_params(&mut to);
    assert!(is_error(&create2d(&mut to, "test", "param.15", "param.7", axis(-10.0, 10.0, 100), axis(0.0, 1024.0, 256))));
}

#[test]
fn cr2d_3() {
    let mut to = make_test_objs();
    make_some_params(&mut to);
    assert!(is_error(&create2d(&mut to, "test", "param.5", "param.17", axis(-10.0, 10.0, 100), axis(0.0, 1024.0, 256))));
}

#[test]
fn cr2d_4() {
    let mut to = make_test_objs();
    make_some_params(&mut to);
    assert_eq!(SpectrumReply::Created, create2d(&mut to, "test", "param.5", "param.7", axis(-10.0, 10.0, 100), axis(0.0, 1024.0, 256)));
    assert!(is_error(&create2d(&mut to, "test", "param.5", "param.7", axis(-10.0, 10.0, 100), axis(0.0, 1024.0, 256))));
    assert!(is_listed(&mut to, "test"));
}

fn sum2(to: &mut TestObjects, x: &[&str], y: &[&str]) -> SpectrumReply {
    request(
        to,
        SpectrumRequest::Create2DSum {
            name: String::from("test"),
            xparams: strings(x),
            yparams: strings(y),
            xaxis: axis(-1.0, 1.0, 512),
            yaxis: axis(0.0, 4096.0, 512),
        },
    )
}

#[test]
fn cr2dsum_1() {
    let mut to = make_test_objs();
    make_some_params(&mut to);
    let x = ["param.0", "param.2", "param.4", "param.6", "param.7"];
    let y = ["param.1", "param.3", "param.5", "param.7", "param.9"];
    assert_eq!(SpectrumReply::Created, sum2(&mut to, &x, &y));
    let p = only(&mut to, "test");
    assert_eq!("2DSum", p.spectrum_type);
    assert_eq!(strings(&x), p.xparams);
    assert_eq!(strings(&y), p.yparams);
    assert!(p.gate.is_none());
    assert_eq!(Some(axis(-1.0, 1.0, 514)), p.xaxis);
    assert_eq!(Some(axis(0.0, 4096.0, 514)), p.yaxis);
}

#[test]
fn cr2dsum_2() {
    let mut to = make_test_objs();
    make_some_params(&mut to);
    let x = ["param.0", "param.2", "param.4", "param.16", "param.7"];
    let y = ["param.1", "param.3", "param.5", "param.7", "param.9"];
    assert!(is_error(&sum2(&mut to, &x, &y)));
}

#[test]
fn cr2dsum_3() {
    let mut to = make_test_objs();
    make_some_params(&mut to);
    let x = ["param.0", "param.2", "param.4", "param.6", "param.7"];
    let y = ["param.1", "param.3", "param.5", "param.17", "param.9"];
    assert!(is_error(&sum2(&mut to, &x, &y)));
}

#[test]
fn cr2dsum_4() {
    let mut to = make_test_objs();
    make_some_params(&mut to);
    let x = ["param.0", "param.2"];
    let y = ["param.1", "param.3"];
    assert_eq!(SpectrumReply::Created, sum2(&mut to, &x, &y));
    assert!(is_error(&sum2(&mut to, &x, &y)));
    assert!(is_listed(&mut to, "test"));
}

#[test]
fn sum_of_unequal_lists_is_refused() {
    let mut to = make_test_objs();
    make_some_params(&mut to);
    assert_eq!(
        SpectrumReply::Error(String::from("Number of xparams must be the same as number of y params")),
        sum2(&mut to, &["param.0", "param.2"], &["param.1"])
    );
    assert!(!is_listed(&mut to, "test"));
    // An existing name is reported first.
    assert_eq!(SpectrumReply::Created, sum2(&mut to, &["param.0"], &["param.1"]));
    assert_eq!(
        SpectrumReply::Error(String::from("Spectrum test already exists")),
        sum2(&mut to, &["param.0", "param.2"], &["param.1"])
    );
}

fn ten_spectra(to: &mut TestObjects) {
    make_some_params(to);
    for i in 0..10 {
        let r = create1d(to, &format!("test.{}", i), &format!("param.{}", i), 0.0, 1024.0, 1024);
        assert_eq!(SpectrumReply::Created, r);
    }
}

#[test]
fn del_2() {
    let mut to = make_test_objs();
    ten_spectra(&mut to);
    assert_eq!(SpectrumReply::Deleted, request(&mut to, SpectrumRequest::Delete(String::from("test.5"))));
    assert!(!is_listed(&mut to, "test.5"));
    assert_eq!(9, listing(&mut to, "*").len());
}

#[test]
fn del_3() {
    let mut to = make_test_objs();
    ten_spectra(&mut to);
    let r = request(&mut to, SpectrumRequest::Delete(String::from("param.1")));
    assert_eq!(SpectrumReply::Error(String::from("Spectrum param.1 does not exist")), r);
    assert_eq!(10, listing(&mut to, "*").len());
}

fn channel_sum(to: &mut TestObjects, name: &str) -> usize {
    match request(
        to,
        SpectrumRequest::GetContents { name: String::from(name), xlow: bits(-1.0e9), xhigh: bits(1.0e9), ylow: bits(-1.0e9), yhigh: bits(1.0e9) },
    ) {
        SpectrumReply::Contents(c) => c.iter().map(|ch| f64::from_bits(ch.value) as usize).sum(),
        r => panic!("not contents: {:?}", r),
    }
}

#[test]
fn clear_2() {
    let mut to = make_test_objs();
    ten_spectra(&mut to);
    // Fills at 100.0 and 110.0: bins 100 and 110, channels 101 and 111.
    put(&mut to, "test.1", 101, 0, 1.0);
    put(&mut to, "test.1", 111, 0, 1.0);
    assert_eq!(SpectrumReply::Cleared, request(&mut to, SpectrumRequest::Clear(String::from("test.2"))));
    assert_eq!(2, channel_sum(&mut to, "test.1"));
    assert_eq!(SpectrumReply::Cleared, request(&mut to, SpectrumRequest::Clear(String::from("test.1"))));
    assert_eq!(0, channel_sum(&mut to, "test.1"));
}

#[test]
fn gate_2() {
    let mut to = make_test_objs();
    make_some_params(&mut to);
    assert_eq!(SpectrumReply::Created, create1d(&mut to, "test", "param.1", 0.0, 1024.0, 1024));
    let r = request(&mut to, SpectrumRequest::Gate { spectrum: String::from("test"), gate: String::from("kond.5") });
    assert_eq!(SpectrumReply::Error(String::from("Condition kond.5 does not exist")), r);
    assert!(only(&mut to, "test").gate.is_none());
}

#[test]
fn gate_3() {
    let mut to = make_test_objs();
    make_some_params(&mut to);
    let r = request(&mut to, SpectrumRequest::Gate { spectrum: String::from("test"), gate: String::from("cond.5") });
    assert_eq!(SpectrumReply::Error(String::from("Spectrum test does not exist")), r);
}

#[test]
fn gate_then_ungate() {
    let mut to = make_test_objs();
    make_some_params(&mut to);
    to.conditions.insert("cond.5", Condition::True(True {}));
    assert_eq!(SpectrumReply::Created, create1d(&mut to, "test", "param.1", 0.0, 1024.0, 1024));
    assert_eq!(
        SpectrumReply::Gated,
        request(&mut to, SpectrumRequest::Gate { spectrum: String::from("test"), gate: String::from("cond.5") })
    );
    assert_eq!(Some(String::from("cond.5")), only(&mut to, "test").gate);
    assert_eq!(SpectrumReply::Ungated, request(&mut to, SpectrumRequest::Ungate(String::from("test"))));
    assert!(only(&mut to, "test").gate.is_none());
}

#[test]
fn ungate_2() {
    let mut to = make_test_objs();
    make_some_params(&mut to);
    assert!(is_error(&request(&mut to, SpectrumRequest::Ungate(String::from("test")))));
}

fn one_d(to: &mut TestObjects) {
    make_some_params(to);
    assert_eq!(SpectrumReply::Created, create1d(to, "test", "param.1", 0.0, 1024.0, 1024));
}

fn two_d(to: &mut TestObjects, bins: u32) {
    make_some_params(to);
    assert_eq!(SpectrumReply::Created, create2d(to, "test", "param.1", "param.2", axis(0.0, 1024.0, bins), axis(0.0, 1024.0, bins)));
}

#[test]
fn getchan1_1() {
    let mut to = make_test_objs();
    one_d(&mut to);
    put(&mut to, "test", 512, 0, 1234.0);
    assert_eq!(SpectrumReply::ChannelValue(bits(1234.0)), getchan(&mut to, "test", 511, None));
    assert_eq!(SpectrumReply::ChannelValue(0), getchan(&mut to, "test", 512, None));
}

#[test]
fn getchan1_2() {
    let mut to = make_test_objs();
    one_d(&mut to);
    assert_eq!(SpectrumReply::Error(String::from("X index is out of range")), getchan(&mut to, "test", -2, None));
    assert_eq!(SpectrumReply::Error(String::from("No such spectrum 'junk'")), getchan(&mut to, "junk", 0, None));
}

#[test]
fn getchan1_3() {
    let mut to = make_test_objs();
    one_d(&mut to);
    assert!(is_error(&getchan(&mut to, "test", 1026, None)));
}

#[test]
fn getchan1_4() {
    let mut to = make_test_objs();
    one_d(&mut to);
    put(&mut to, "test", 0, 0, 1234.0);
    assert_eq!(SpectrumReply::ChannelValue(bits(1234.0)), getchan(&mut to, "test", -1, None));
}

#[test]
fn getchan1_5() {
    let mut to = make_test_objs();
    one_d(&mut to);
    put(&mut to, "test", 1025, 0, 1234.0);
    assert_eq!(SpectrumReply::ChannelValue(bits(1234.0)), getchan(&mut to, "test", 1024, None));
}

#[test]
fn getchan2_1() {
    let mut to = make_test_objs();
    two_d(&mut to, 512);
    // A fill at (512.0, 512.0): bins 256, 256.
    put(&mut to, "test", 257, 257, 1.0);
    assert_eq!(SpectrumReply::ChannelValue(bits(1.0)), getchan(&mut to, "test", 256, Some(256)));
}

#[test]
fn getchan2_2() {
    let mut to = make_test_objs();
    two_d(&mut to, 512);
    let expected = format!("Xbin: {} is larger than the number of bins: 514", usize::MAX);
    assert_eq!(SpectrumReply::Error(expected), getchan(&mut to, "test", -2, Some(255)));
}

#[test]
fn getchan2_3() {
    let mut to = make_test_objs();
    two_d(&mut to, 512);
    assert_eq!(
        SpectrumReply::Error(String::from("Xbin: 514 is larger than the number of bins: 514")),
        getchan(&mut to, "test", 513, Some(0))
    );
}

#[test]
fn getchan2_4() {
    let mut to = make_test_objs();
    two_d(&mut to, 512);
    assert!(is_error(&getchan(&mut to, "test", 512, Some(-2))));
}

#[test]
fn getchan2_5() {
    let mut to = make_test_objs();
    two_d(&mut to, 512);
    assert_eq!(
        SpectrumReply::Error(String::from("Ybin: 514 is larger than the number of bins: 514")),
        getchan(&mut to, "test", 0, Some(513))
    );
}

#[test]
fn getchan2_6() {
    let mut to = make_test_objs();
    two_d(&mut to, 512);
    // A fill at (-1.0, 512.0): x underflow on the 256 line.
    put(&mut to, "test", 0, 257, 1.0);
    assert_eq!(SpectrumReply::ChannelValue(bits(1.0)), getchan(&mut to, "test", -1, Some(256)));
}

#[test]
fn getchan2_7() {
    let mut to = make_test_objs();
    two_d(&mut to, 512);
    // A fill at (1025.0, 512.0): x overflow on the 256 line.
    put(&mut to, "test", 513, 257, 1.0);
    assert_eq!(SpectrumReply::ChannelValue(bits(1.0)), getchan(&mut to, "test", 512, Some(256)));
}

#[test]
fn getchan2_8() {
    let mut to = make_test_objs();
    two_d(&mut to, 512);
    // A fill at (512.0, -2.0): y underflow.
    put(&mut to, "test", 257, 0, 1.0);
    assert_eq!(SpectrumReply::ChannelValue(bits(1.0)), getchan(&mut to, "test", 256, Some(-1)));
}

#[test]
fn getchan2_9() {
    let mut to = make_test_objs();
    two_d(&mut to, 512);
    // A fill at (512.0, 1025.0): y overflow.
    put(&mut to, "test", 257, 513, 1.0);
    assert_eq!(SpectrumReply::ChannelValue(bits(1.0)), getchan(&mut to, "test", 256, Some(512)));
}

#[test]
fn getchan2_10() {
    let mut to = make_test_objs();
    two_d(&mut to, 512);
    assert_eq!(
        SpectrumReply::Error(String::from("Must have  a ybin for a 2d spectrum")),
        getchan(&mut to, "test", 256, None)
    );
}

fn set_then_get(to: &mut TestObjects, xchan: i32, ychan: Option<i32>) {
    assert_eq!(SpectrumReply::ChannelSet, setchan(to, "test", xchan, ychan, 12345.0));
    assert_eq!(SpectrumReply::ChannelValue(bits(12345.0)), getchan(to, "test", xchan, ychan));
}

#[test]
fn setchan1_1() {
    let mut to = make_test_objs();
    one_d(&mut to);
    set_then_get(&mut to, 512, None);
}

#[test]
fn setchan1_2() {
    let mut to = make_test_objs();
    one_d(&mut to);
    set_then_get(&mut to, -1, None);
}

#[test]
fn setchan1_3() {
    let mut to = make_test_objs();
    one_d(&mut to);
    set_then_get(&mut to, 1024, None);
}

#[test]
fn setchan1_4() {
    let mut to = make_test_objs();
    one_d(&mut to);
    assert_eq!(SpectrumReply::Error(String::from("X index is out of range")), setchan(&mut to, "test", -2, None, 12345.0));
}

#[test]
fn setchan1_5() {
    let mut to = make_test_objs();
    one_d(&mut to);
    assert!(is_error(&setchan(&mut to, "test", 1025, None, 12345.0)));
    assert_eq!(SpectrumReply::Error(String::from("No such spectrum: junk")), setchan(&mut to, "junk", 0, None, 1.0));
}

#[test]
fn setchan2_1() {
    let mut to = make_test_objs();
    two_d(&mut to, 256);
    set_then_get(&mut to, 128, Some(128));
}

#[test]
fn setchan2_2() {
    let mut to = make_test_objs();
    two_d(&mut to, 256);
    set_then_get(&mut to, -1, Some(128));
}

#[test]
fn setchan2_3() {
    let mut to = make_test_objs();
    two_d(&mut to, 256);
    set_then_get(&mut to, 256, Some(128));
}

#[test]
fn setchan2_4() {
    let mut to = make_test_objs();
    two_d(&mut to, 256);
    set_then_get(&mut to, 128, Some(-1));
}

#[test]
fn setchan2_5() {
    let mut to = make_test_objs();
    two_d(&mut to, 256);
    set_then_get(&mut to, 128, Some(256));
}

#[test]
fn setchan2_6() {
    let mut to = make_test_objs();
    two_d(&mut to, 256);
    assert!(is_error(&setchan(&mut to, "test", -2, Some(128), 12345.0)));
}

#[test]
fn setchan2_7() {
    let mut to = make_test_objs();
    two_d(&mut to, 256);
    assert_eq!(
        SpectrumReply::Error(String::from("Xbin: 258 is larger than the number of bins: 258")),
        setchan(&mut to, "test", 257, Some(128), 12345.0)
    );
}

#[test]
fn setchan2_8() {
    let mut to = make_test_objs();
    two_d(&mut to, 256);
    assert!(is_error(&setchan(&mut to, "test", 129, Some(-2), 12345.0)));
}

#[test]
fn setchan2_9() {
    let mut to = make_test_objs();
    two_d(&mut to, 256);
    assert!(is_error(&setchan(&mut to, "test", 129, Some(257), 12345.0)));
}

#[test]
fn setchan2_10() {
    let mut to = make_test_objs();
    two_d(&mut to, 256);
    assert_eq!(SpectrumReply::Error(String::from("2d spectra need a y bin")), setchan(&mut to, "test", 129, None, 12345.0));
}

#[test]
fn fold_1() {
    let mut to = make_test_objs();
    to.conditions.insert("true", Condition::True(True {}));
    let r = request(&mut to, SpectrumRequest::Fold { spectrum_name: String::from("junk"), condition_name: String::from("true") });
    assert_eq!(SpectrumReply::Error(String::from("no such spectrum junk")), r);
}

#[test]
fn fold_2() {
    let mut to = make_test_objs();
    make_some_params(&mut to);
    assert_eq!(SpectrumReply::Created, multi1(&mut to, &["param.1", "param.2"]));
    let r = request(&mut to, SpectrumRequest::Fold { spectrum_name: String::from("test"), condition_name: String::from("true") });
    assert_eq!(SpectrumReply::Error(String::from("Failed to fold test: no such condition true")), r);
}

#[test]
fn fold_then_unfold() {
    let mut to = make_test_objs();
    make_some_params(&mut to);
    to.conditions.insert("true", Condition::True(True {}));
    assert_eq!(SpectrumReply::Created, multi1(&mut to, &["param.1", "param.2"]));
    assert!(is_error(&request(&mut to, SpectrumRequest::Unfold(String::from("test")))));
    let r = request(&mut to, SpectrumRequest::Fold { spectrum_name: String::from("test"), condition_name: String::from("true") });
    assert_eq!(SpectrumReply::Folded, r);
    assert_eq!(SpectrumReply::Unfolded, request(&mut to, SpectrumRequest::Unfold(String::from("test"))));
    assert_eq!(SpectrumReply::Error(String::from("no such spectrum x")), request(&mut to, SpectrumRequest::Unfold(String::from("x"))));
}

/// Installs the coordinates of a uniform axis: underflow end, bin starts,
/// overflow start.
fn coords(low: f64, high: f64, bins: usize) -> Vec<u64> {
    let w = (high - low) / bins as f64;
    let mut v = vec![bits(low)];
    for k in 0..bins {
        v.push(bits(low + w * k as f64));
    }
    v.push(bits(high));
    v
}

#[test]
fn contents_3() {
    let mut to = make_test_objs();
    make_some_params(&mut to);
    assert_eq!(SpectrumReply::Created, create2d(&mut to, "test", "param.5", "param.7", axis(0.0, 1024.0, 1024), axis(0.0, 1024.0, 1024)));
    let i = index_of(&to, "test");
    assert!(to.processor.install_coordinates(i, coords(0.0, 1024.0, 1024), coords(0.0, 1024.0, 1024)));
    // Five events at (512.0, 700.0): channel (513, 701).
    put(&mut to, "test", 513, 701, 5.0);
    let get = |to: &mut TestObjects, yl: f64, yh: f64| {
        request(to, SpectrumRequest::GetContents { name: String::from("test"), xlow: bits(0.0), xhigh: bits(1024.0), ylow: bits(yl), yhigh: bits(yh) })
    };
    assert_eq!(SpectrumReply::Contents(vec![]), get(&mut to, 100.0, 300.0));
    assert_eq!(SpectrumReply::Contents(vec![]), get(&mut to, 720.0, 1024.0));
    assert_eq!(
        SpectrumReply::Contents(vec![Channel {
            chan_type: ChannelType::Bin,
            x: bits(512.0),
            y: bits(700.0),
            bin: 513 + 701 * 1026,
            value: bits(5.0)
        }]),
        get(&mut to, 0.0, 1024.0)
    );
}

#[test]
fn contents_1d_reports_flow_channels() {
    let mut to = make_test_objs();
    one_d(&mut to);
    let i = index_of(&to, "test");
    assert!(to.processor.install_coordinates(i, coords(0.0, 1024.0, 1024), vec![0]));
    put(&mut to, "test", 0, 0, 1.0);
    put(&mut to, "test", 101, 0, 2.0);
    put(&mut to, "test", 1025, 0, 3.0);
    let r = request(&mut to, SpectrumRequest::GetContents { name: String::from("test"), xlow: bits(200.0), xhigh: bits(300.0), ylow: 0, yhigh: 0 });
    assert_eq!(
        SpectrumReply::Contents(vec![
            Channel { chan_type: ChannelType::Underflow, x: bits(0.0), y: 0, bin: 0, value: bits(1.0) },
            Channel { chan_type: ChannelType::Overflow, x: bits(1024.0), y: 0, bin: 1025, value: bits(3.0) },
        ]),
        r
    );
    assert_eq!(
        SpectrumReply::Error(String::from("Spectrum junk does not exist")),
        request(&mut to, SpectrumRequest::GetContents { name: String::from("junk"), xlow: 0, xhigh: 0, ylow: 0, yhigh: 0 })
    );
}

#[test]
fn fills_are_counted_out_of_range() {
    let mut to = make_test_objs();
    two_d(&mut to, 4);
    put(&mut to, "test", 0, 3, 1.0);
    put(&mut to, "test", 5, 5, 1.0);
    assert_eq!(SpectrumReply::Statistics((1, 0, 1, 1)), request(&mut to, SpectrumRequest::GetStats(String::from("test"))));
    let i = index_of(&to, "test");
    assert!(!to.processor.record_fill(i, 6, 0, 1));
}

#[test]
fn load_sets_channels_by_bin() {
    let mut to = make_test_objs();
    one_d(&mut to);
    put(&mut to, "test", 7, 0, 9.0);
    let contents = vec![Channel { chan_type: ChannelType::Bin, x: bits(10.0), y: 0, bin: 11, value: bits(4.0) }];
    assert_eq!(SpectrumReply::Processed, request(&mut to, SpectrumRequest::SetContents { name: String::from("test"), contents }));
    assert_eq!(SpectrumReply::ChannelValue(0), getchan(&mut to, "test", 6, None));
    assert_eq!(SpectrumReply::ChannelValue(bits(4.0)), getchan(&mut to, "test", 10, None));
}

#[test]
fn events_are_kept_for_histogramming() {
    let mut to = make_test_objs();
    one_d(&mut to);
    let ev = vec![EventParameter::new(2, bits(512.0))];
    assert_eq!(SpectrumReply::Processed, request(&mut to, SpectrumRequest::Events(vec![ev.clone(), ev.clone()])));
    let taken = to.processor.take_events();
    assert_eq!(2, taken.len());
    assert_eq!(ev, taken[0]);
    assert_eq!(0, to.processor.take_events().len());
}

fn flat(ev: &[(u32, f64)]) -> FlatEvent {
    let mut f = FlatEvent::new();
    let e: Vec<EventParameter> = ev.iter().map(|(id, v)| EventParameter::new(*id, bits(*v))).collect();
    f.load_event(&e);
    f
}

fn fills_of(to: &TestObjects, name: &str, ev: &FlatEvent) -> Vec<Fill> {
    to.processor.spectrum(index_of(to, name)).fills(&to.parameters, ev)
}

fn xv(v: f64) -> Fill {
    Fill { x: XFill::Value(bits(v)), y: None }
}

fn xy(x: f64, y: f64) -> Fill {
    Fill { x: XFill::Value(bits(x)), y: Some(bits(y)) }
}

#[test]
fn event_fills_of_1d_spectra() {
    // param.i has id i + 1; the event sets param.5 and param.7.
    let mut to = make_test_objs();
    make_some_params(&mut to);
    for i in 0..10 {
        let r = create1d(&mut to, &format!("spec.{}", i), &format!("param.{}", i), 0.0, 1024.0, 1024);
        assert_eq!(SpectrumReply::Created, r);
    }
    let ev = flat(&[(6, 512.0), (8, 700.0)]);
    assert_eq!(vec![xv(512.0)], fills_of(&to, "spec.5", &ev));
    assert_eq!(vec![xv(700.0)], fills_of(&to, "spec.7", &ev));
    for i in [0, 1, 2, 3, 4, 6, 8, 9] {
        assert!(fills_of(&to, &format!("spec.{}", i), &ev).is_empty());
    }
}

#[test]
fn event_fills_of_2d_spectra() {
    let mut to = make_test_objs();
    make_some_params(&mut to);
    assert_eq!(SpectrumReply::Created, create2d(&mut to, "twod", "param.5", "param.7", axis(0.0, 1024.0, 1024), axis(0.0, 1024.0, 1024)));
    assert_eq!(SpectrumReply::Created, pgamma(&mut to, &["param.0", "param.5"], &["param.7", "param.1"]));
        let ev = flat(&[(6, 512.0), (8, 700.0), (2, 1.0)]);
    assert_eq!(vec![xy(512.0, 700.0)], fills_of(&to, "twod", &ev));
    // Particle gamma "test": x values 512 (param.5); y values 700, 1 (param.7, param.1).
    assert_eq!(vec![xy(512.0, 700.0), xy(512.0, 1.0)], fills_of(&to, "test", &ev));
    assert!(fills_of(&to, "twod", &flat(&[(6, 512.0)])).is_empty());
}

#[test]
fn event_fills_of_multiply_incremented_spectra() {
    let mut to = make_test_objs();
    make_some_params(&mut to);
    assert_eq!(SpectrumReply::Created, multi2(&mut to, &["param.1", "param.2", "param.3"]));
    let ev = flat(&[(2, 1.0), (3, 2.0), (4, 3.0)]);
    assert_eq!(
        vec![xy(1.0, 2.0), xy(2.0, 1.0), xy(1.0, 3.0), xy(3.0, 1.0), xy(2.0, 3.0), xy(3.0, 2.0)],
        fills_of(&to, "test", &ev)
    );
    let mut to = make_test_objs();
    make_some_params(&mut to);
    assert_eq!(SpectrumReply::Created, summary(&mut to, &["param.1", "param.2", "param.3"]));
    let ev = flat(&[(2, 1.0), (4, 3.0)]);
    assert_eq!(
        vec![Fill { x: XFill::Channel(1), y: Some(bits(1.0)) }, Fill { x: XFill::Channel(3), y: Some(bits(3.0)) }],
        fills_of(&to, "test", &ev)
    );
}

/// Histograms the events the store keeps into its 1-d spectra on a
/// uniform axis: the library's fills, binned and counted here.
fn histogram_kept_events(to: &mut TestObjects, low: f64, high: f64, bins: usize) {
    for e in to.processor.take_events() {
        let mut ev = FlatEvent::new();
        ev.load_event(&e);
        for i in 0..to.processor.len() {
            let fills = to.processor.spectrum(i).fills(&to.parameters, &ev);
            for f in fills {
                if let XFill::Value(v) = f.x {
                    let x = f64::from_bits(v);
                    let xi = if x < low {
                        0
                    } else if x >= high {
                        bins + 1
                    } else {
                        ((x - low) / (high - low) * bins as f64) as usize + 1
                    };
                    let old = to.processor.spectrum(i).value_at(xi, 0).unwrap();
                    assert!(to.processor.record_fill(i, xi, 0, bits(f64::from_bits(old) + 1.0)));
                }
            }
        }
    }
}

#[test]
fn events_1() {
    let mut to = make_test_objs();
    make_some_params(&mut to);
    for i in 0..10 {
        let r = create1d(&mut to, &format!("spec.{}", i), &format!("param.{}", i), 0.0, 1024.0, 1024);
        assert_eq!(SpectrumReply::Created, r);
    }
    let event = vec![EventParameter::new(6, bits(512.0)), EventParameter::new(8, bits(700.0))];
    let events = vec![event.clone(), event.clone(), event.clone(), event.clone(), event];
    assert_eq!(SpectrumReply::Processed, request(&mut to, SpectrumRequest::Events(events)));
    histogram_kept_events(&mut to, 0.0, 1024.0, 1024);
    for i in 0..10 {
        let name = format!("spec.{}", i);
        for chan in -1..1025 {
            let expected = if (i == 5 && chan == 512) || (i == 7 && chan == 700) { bits(5.0) } else { 0 };
            assert_eq!(SpectrumReply::ChannelValue(expected), getchan(&mut to, &name, chan, None));
        }
    }
}

#[test]
fn oversized_spectrum_is_refused() {
    let mut to = make_test_objs();
    make_some_params(&mut to);
    let r = create2d(&mut to, "big", "param.1", "param.2", axis(0.0, 1.0, 100000), axis(0.0, 1.0, 100000));
    assert_eq!(SpectrumReply::Error(String::from("Spectrum big has too many channels")), r);
    assert!(!is_listed(&mut to, "big"));
}

#[test]
fn only_multiply_incremented_spectra_fold() {
    let mut to = make_test_objs();
    one_d(&mut to);
    to.conditions.insert("true", Condition::True(True {}));
    let r = request(&mut to, SpectrumRequest::Fold { spectrum_name: String::from("test"), condition_name: String::from("true") });
    assert_eq!(SpectrumReply::Error(String::from("Failed to fold test: only multiply incremented spectra can be folded")), r);
}
