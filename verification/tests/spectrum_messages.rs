use rustogrammer::histogramer::RequestProcessor;
use rustogrammer::messaging::spectrum_messages::{
    channel_set_result, channel_value_result, contents_result, empty_result, fill_result, listing_result,
    processed_result, spectrum_result, statistics_result, AxisSpecification, Channel, ChannelType, SpectrumMessageClient,
    SpectrumProperties, SpectrumReply, SpectrumRequest,
};
use rustogrammer::messaging::{MessageType, Reply, Request};
use rustogrammer::conditions::{Condition, ConditionDictionary, True};
use rustogrammer::messaging::spectrum_messages::SpectrumProcessor;
use rustogrammer::parameters::{EventParameter, ParameterDictionary};
use std::sync::mpsc::channel;

fn bits(v: f64) -> u64 {
    v.to_bits()
}

fn axis(low: f64, high: f64, bins: u32) -> AxisSpecification {
    AxisSpecification { low: bits(low), high: bits(high), bins }
}

fn strings(v: &[&str]) -> Vec<String> {
    v.iter().map(|s| String::from(*s)).collect()
}

// Request builders

#[test]
fn c1d_1() {
    let req = SpectrumMessageClient::create1d_request("test", "par1", bits(0.0), bits(1024.0), 1024);
    assert_eq!(
        SpectrumRequest::Create1D {
            name: String::from("test"),
            parameter: String::from("par1"),
            axis: axis(0.0, 1024.0, 1024)
        },
        req
    )
}

#[test]
fn cm1d_1() {
    let req = SpectrumMessageClient::createmulti1d_request(
        "test",
        &strings(&["p1", "p2", "p3"]),
        bits(0.0),
        bits(1024.0),
        1024,
    );
    assert_eq!(
        SpectrumRequest::CreateMulti1D {
            name: String::from("test"),
            params: strings(&["p1", "p2", "p3"]),
            axis: axis(0.0, 1024.0, 1024)
        },
        req
    );
}

#[test]
fn cm2d_1() {
    let p = strings(&["p1", "p2", "p3"]);
    let req = SpectrumMessageClient::createmulti2d_request(
        "test",
        &p,
        bits(0.0),
        bits(1024.0),
        1024,
        bits(-1.0),
        bits(1.0),
        100,
    );
    assert_eq!(
        SpectrumRequest::CreateMulti2D {
            name: String::from("test"),
            params: p,
            xaxis: axis(0.0, 1024.0, 1024),
            yaxis: axis(-1.0, 1.0, 100)
        },
        req
    );
}

#[test]
fn cpgamma_1() {
    let xp = strings(&["x1", "x2", "x3"]);
    let yp = strings(&["y1", "y2"]);
    let req = SpectrumMessageClient::createpgamma_request(
        "test",
        &xp,
        &yp,
        bits(0.0),
        bits(1024.0),
        1024,
        bits(-1.0),
        bits(1.0),
        100,
    );
    assert_eq!(
        SpectrumRequest::CreatePGamma {
            name: String::from("test"),
            xparams: xp,
            yparams: yp,
            xaxis: axis(0.0, 1024.0, 1024),
            yaxis: axis(-1.0, 1.0, 100)
        },
        req
    );
}

#[test]
fn c2d_1() {
    let req = SpectrumMessageClient::create2d_request(
        "test",
        "px",
        "py",
        bits(0.0),
        bits(1024.0),
        1024,
        bits(-1.0),
        bits(1.0),
        100,
    );
    assert_eq!(
        SpectrumRequest::Create2D {
            name: String::from("test"),
            xparam: String::from("px"),
            yparam: String::from("py"),
            xaxis: axis(0.0, 1024.0, 1024),
            yaxis: axis(-1.0, 1.0, 100)
        },
        req
    );
}

#[test]
fn c2dsum_1() {
    let xp = strings(&["x1", "x2", "x3"]);
    let yp = strings(&["y1", "y2", "y3"]);
    let req = SpectrumMessageClient::create2dsum_request(
        "test",
        &xp,
        &yp,
        bits(0.0),
        bits(1024.0),
        1024,
        bits(-1.0),
        bits(1.0),
        100,
    );
    assert_eq!(
        SpectrumRequest::Create2DSum {
            name: String::from("test"),
            xparams: xp.clone(),
            yparams: yp.clone(),
            xaxis: axis(0.0, 1024.0, 1024),
            yaxis: axis(-1.0, 1.0, 100)
        },
        req
    );
}

#[test]
fn csummary_request() {
    let req = SpectrumMessageClient::createsummary_request("s", &strings(&["a", "b"]), bits(0.0), bits(10.0), 10);
    assert_eq!(
        SpectrumRequest::CreateSummary {
            name: String::from("s"),
            params: strings(&["a", "b"]),
            yaxis: axis(0.0, 10.0, 10)
        },
        req
    );
}

#[test]
fn spectrum_messages_del_1() {
    let req = SpectrumMessageClient::delete_request("test");
    assert_eq!(SpectrumRequest::Delete(String::from("test")), req);
    // Deleting a spectrum of a store:
    let mut st = Store::with_ten();
    assert_eq!(SpectrumReply::Deleted, st.ask(SpectrumRequest::Delete(String::from("test.1"))));
    assert!(st.list("test.1").is_empty());
    assert_eq!(9, st.list("*").len());
}

#[test]
fn spectrum_messages_list_1() {
    let req = SpectrumMessageClient::list_request("*");
    assert_eq!(SpectrumRequest::List(String::from("*")), req);
    // Listing every spectrum of a store:
    let mut st = Store::with_ten();
    let mut l = st.list("*");
    assert_eq!(10, l.len());
    l.sort_by_key(|p| p.name.clone());
    for i in 0..10 {
        assert_eq!(format!("test.{}", i), l[i].name);
        assert_eq!("1D", l[i].spectrum_type);
        assert_eq!(vec![format!("param.{}", i)], l[i].xparams);
        assert_eq!(0, l[i].yparams.len());
        assert!(l[i].yaxis.is_none());
        assert_eq!(axis(0.0, 1024.0, 1026), l[i].xaxis.expect("No x axis"));
        assert!(l[i].gate.is_none());
    }
}

#[test]
fn spectrum_messages_gate_1() {
    let req = SpectrumMessageClient::gate_request("spectrum", "gate");
    assert_eq!(
        SpectrumRequest::Gate { spectrum: String::from("spectrum"), gate: String::from("gate") },
        req
    );
    // Gating a spectrum of a store with an existing condition:
    let mut st = Store::with_ten();
    st.cd.insert("cond.5", Condition::True(True {}));
    let r = st.ask(SpectrumRequest::Gate { spectrum: String::from("test.1"), gate: String::from("cond.5") });
    assert_eq!(SpectrumReply::Gated, r);
    assert_eq!(Some(String::from("cond.5")), st.list("test.1")[0].gate);
}

#[test]
fn spectrum_messages_ungate_1() {
    let req = SpectrumMessageClient::ungate_request("test");
    assert_eq!(SpectrumRequest::Ungate(String::from("test")), req);
    // Ungating a gated spectrum of a store:
    let mut st = Store::with_ten();
    st.cd.insert("cond.5", Condition::True(True {}));
    st.ask(SpectrumRequest::Gate { spectrum: String::from("test.1"), gate: String::from("cond.5") });
    assert_eq!(SpectrumReply::Ungated, st.ask(SpectrumRequest::Ungate(String::from("test.1"))));
    assert!(st.list("test.1")[0].gate.is_none());
}

#[test]
fn spectrum_messages_clear_1() {
    let req = SpectrumMessageClient::clear_request("t*");
    assert_eq!(SpectrumRequest::Clear(String::from("t*")), req);
    // Clearing every spectrum of a store:
    let mut st = Store::with_ten();
    let i = st.p.find("test.1").unwrap();
    assert!(st.p.record_fill(i, 101, 0, bits(1.0)));
    assert_eq!(SpectrumReply::ChannelValue(bits(1.0)), st.ask(SpectrumRequest::GetChan { name: String::from("test.1"), xchan: 100, ychan: None }));
    assert_eq!(SpectrumReply::Cleared, st.ask(SpectrumRequest::Clear(String::from("*"))));
    assert_eq!(SpectrumReply::ChannelValue(0), st.ask(SpectrumRequest::GetChan { name: String::from("test.1"), xchan: 100, ychan: None }));
}

#[test]
fn spectrum_messages_get_1() {
    let req = SpectrumMessageClient::getcontents_request("test", bits(0.0), bits(50.0), bits(100.0), bits(125.0));
    assert_eq!(
        SpectrumRequest::GetContents {
            name: String::from("test"),
            xlow: bits(0.0),
            xhigh: bits(50.0),
            ylow: bits(100.0),
            yhigh: bits(125.0)
        },
        req
    );
}

#[test]
fn process_1() {
    let events = vec![
        vec![EventParameter::new(1, bits(2.0)), EventParameter::new(7, bits(100.))],
        vec![EventParameter::new(12, bits(1.345)), EventParameter::new(77, bits(3.1416))],
        vec![
            EventParameter::new(1, bits(2.0)),
            EventParameter::new(7, bits(100.)),
            EventParameter::new(12, bits(1.345)),
            EventParameter::new(77, bits(3.1416)),
        ],
    ];
    let req = SpectrumMessageClient::events_request(&events);
    assert_eq!(SpectrumRequest::Events(events), req);
}

// What the client makes of replies

#[test]
fn empty_results() {
    assert_eq!(Ok(()), empty_result(SpectrumReply::Created));
    assert_eq!(Ok(()), empty_result(SpectrumReply::Gated));
    assert_eq!(Err(String::from("no")), empty_result(SpectrumReply::Error(String::from("no"))));
}

#[test]
fn listing_results() {
    let p = SpectrumProperties {
        name: String::from("s"),
        spectrum_type: String::from("1D"),
        xparams: strings(&["a"]),
        yparams: vec![],
        xaxis: Some(axis(0.0, 10.0, 12)),
        yaxis: None,
        gate: None,
    };
    let listed = listing_result(SpectrumReply::Listing(vec![p]));
    assert_eq!(1, listed.unwrap().len());
    assert_eq!(Err(String::from("bad")), listing_result(SpectrumReply::Error(String::from("bad"))));
    assert_eq!(
        Err(String::from("Unexpected server result for list request")),
        listing_result(SpectrumReply::Cleared)
    );
}

#[test]
fn other_results() {
    let c = Channel { chan_type: ChannelType::Bin, x: bits(1.0), y: bits(0.0), bin: 2, value: bits(5.0) };
    assert_eq!(Ok(vec![c]), contents_result(SpectrumReply::Contents(vec![c])));
    assert_eq!(
        Err(String::from("Unexpected reply type for get_contents")),
        contents_result(SpectrumReply::Processed)
    );
    assert_eq!(Ok(()), processed_result(SpectrumReply::Processed));
    assert_eq!(
        Err(String::from("processEvents -unexpected reply type")),
        processed_result(SpectrumReply::Created)
    );
    assert_eq!(Ok((1, 2, 3, 4)), statistics_result(SpectrumReply::Statistics((1, 2, 3, 4))));
    assert_eq!(
        Err(String::from("get_statistics - unexpected reply type")),
        statistics_result(SpectrumReply::Deleted)
    );
    assert_eq!(Ok(()), fill_result(SpectrumReply::Processed));
    assert_eq!(
        Err(String::from("Unexpected reply type in fill_spectrum")),
        fill_result(SpectrumReply::ChannelSet)
    );
    assert_eq!(Ok(bits(7.5)), channel_value_result(SpectrumReply::ChannelValue(bits(7.5))));
    assert_eq!(
        Err(String::from("Unexpected reply type in get_channel_value")),
        channel_value_result(SpectrumReply::Folded)
    );
    assert_eq!(Ok(()), channel_set_result(SpectrumReply::ChannelSet));
    assert_eq!(
        Err(String::from("Unexpected reply type in set_channel_value")),
        channel_set_result(SpectrumReply::Unfolded)
    );
    assert_eq!(Err(String::from("e")), channel_set_result(SpectrumReply::Error(String::from("e"))));
}

// Requests about spectra the store does not hold.

fn spectrum_reply(p: &mut RequestProcessor, req: SpectrumRequest) -> SpectrumReply {
    match p.process_message(MessageType::Spectrum(req)) {
        Reply::Spectrum(r) => r,
        _ => panic!("not a spectrum reply"),
    }
}

fn err(s: &str) -> SpectrumReply {
    SpectrumReply::Error(String::from(s))
}

#[test]
fn missing_spectrum_answers() {
    let mut p = RequestProcessor::new();
    assert_eq!(SpectrumReply::Cleared, spectrum_reply(&mut p, SpectrumRequest::Clear(String::from("*"))));
    assert_eq!(SpectrumReply::Listing(vec![]), spectrum_reply(&mut p, SpectrumRequest::List(String::from("*"))));
    assert_eq!(err("Spectrum s does not exist"), spectrum_reply(&mut p, SpectrumRequest::Delete(String::from("s"))));
    assert_eq!(
        err("Spectrum s does not exist"),
        spectrum_reply(&mut p, SpectrumRequest::Gate { spectrum: String::from("s"), gate: String::from("g") })
    );
    assert_eq!(err("Spectrum s does not exist"), spectrum_reply(&mut p, SpectrumRequest::Ungate(String::from("s"))));
    assert_eq!(err("Spectrum s does not exist"), spectrum_reply(&mut p, SpectrumRequest::GetStats(String::from("s"))));
    assert_eq!(
        err("No such spectrum 's'"),
        spectrum_reply(&mut p, SpectrumRequest::GetChan { name: String::from("s"), xchan: 1, ychan: None })
    );
    assert_eq!(
        err("No such spectrum: s"),
        spectrum_reply(&mut p, SpectrumRequest::SetChan { name: String::from("s"), xchan: 1, ychan: None, value: 0 })
    );
    assert_eq!(err("no such spectrum s"), spectrum_reply(&mut p, SpectrumRequest::Unfold(String::from("s"))));
    assert_eq!(SpectrumReply::Processed, spectrum_reply(&mut p, SpectrumRequest::Events(vec![vec![]])));
    assert_eq!(
        err("Parameter p does not exist"),
        spectrum_reply(&mut p, SpectrumRequest::Create1D { name: String::from("s"), parameter: String::from("p"), axis: axis(0.0, 1.0, 10) })
    );
    assert!(matches!(spectrum_reply(&mut p, SpectrumRequest::List(String::from("["))), SpectrumReply::Error(_)));
}

#[test]
fn spectrum_client_without_server_reports_error() {
    let (send, recv) = channel::<Request>();
    drop(recv);
    let api = SpectrumMessageClient::new(&send);
    assert_eq!(Err(String::from("Send to histogramer failed!")), api.list_spectra("*"));
    assert_eq!(Err(String::from("Send to histogramer failed!")), api.delete_spectrum("x"));
    assert_eq!(Err(String::from("Send to histogramer failed!")), api.get_channel_value("x", 1, None));
}

#[test]
fn spectrum_result_of_outcomes() {
    assert_eq!(spectrum_result(Ok(Reply::Spectrum(SpectrumReply::Deleted))), SpectrumReply::Deleted);
    assert_eq!(
        spectrum_result(Ok(Reply::Exiting)),
        SpectrumReply::Error(String::from("Expected Spectrum reply got something else"))
    );
    assert_eq!(
        spectrum_result(Err(String::from("Read of reply from histogramer failed!"))),
        SpectrumReply::Error(String::from("Read of reply from histogramer failed!"))
    );
}

struct Store {
    p: SpectrumProcessor,
    pd: ParameterDictionary,
    cd: ConditionDictionary,
}

impl Store {
    /// Spectra test.0 .. test.9, 1-d on param.0 .. param.9.
    fn with_ten() -> Store {
        let mut st = Store { p: SpectrumProcessor::new(), pd: ParameterDictionary::new(), cd: ConditionDictionary::new() };
        for i in 0..10 {
            st.pd.add(&format!("param.{}", i)).unwrap();
        }
        for i in 0..10 {
            let r = st.ask(SpectrumRequest::Create1D {
                name: format!("test.{}", i),
                parameter: format!("param.{}", i),
                axis: axis(0.0, 1024.0, 1024),
            });
            assert_eq!(SpectrumReply::Created, r);
        }
        st
    }

    fn ask(&mut self, req: SpectrumRequest) -> SpectrumReply {
        self.p.process_request(req, &self.pd, &mut self.cd)
    }

    fn list(&mut self, pattern: &str) -> Vec<SpectrumProperties> {
        match self.ask(SpectrumRequest::List(String::from(pattern))) {
            SpectrumReply::Listing(l) => l,
            r => panic!("not a listing: {:?}", r),
        }
    }
}

#[test]
fn spectrum_messages_list_2() {
    // Listing with a pattern that matches one spectrum:
    let mut st = Store::with_ten();
    let l = st.list("test.9");
    assert_eq!(1, l.len());
    assert_eq!("test.9", l[0].name);
    assert_eq!(vec![String::from("param.9")], l[0].xparams);
    assert!(matches!(st.ask(SpectrumRequest::List(String::from("["))), SpectrumReply::Error(_)));
}
