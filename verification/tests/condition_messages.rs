use rustogrammer::messaging::condition_messages::{
    condition_result, reconstitute_contour, ConditionMessageClient, ConditionProcessor, ConditionProperties, ConditionReply,
    ConditionRequest,
};
use rustogrammer::histogramer::Histogramer;
use rustogrammer::messaging::{MessageType, Reply, Request};
use std::collections::HashMap;
use std::sync::mpsc::channel;

fn bits(v: f64) -> u64 {
    v.to_bits()
}

fn pairs(v: &[(f64, f64)]) -> Vec<(u64, u64)> {
    v.iter().map(|(x, y)| (bits(*x), bits(*y))).collect()
}

// The type name of the condition named `name` in the processor.
fn type_of(cp: &ConditionProcessor, name: &str) -> String {
    let d = cp.get_dict();
    let s = d.get(name).expect("condition is defined");
    d.get_condition(s).unwrap().condition_type()
}

// Request builders

#[test]
fn condition_messages_make_true_1() {
    let mtr = ConditionMessageClient::make_true_creation("a-condition");
    if let ConditionRequest::CreateTrue(t) = mtr {
        assert_eq!(String::from("a-condition"), t)
    } else {
        panic!("make_true_creation did not make ConditionRequest::CreateTrue");
    }
}

#[test]
fn condition_messages_make_false_1() {
    let mfr = ConditionMessageClient::make_false_creation("false-cond");
    if let ConditionRequest::CreateFalse(n) = mfr {
        assert_eq!(String::from("false-cond"), n);
    } else {
        panic!("make_false_creation did not make a ConditionRequest::CreateFalse");
    }
}

#[test]
fn condition_messages_make_not_1() {
    let mr = ConditionMessageClient::make_not_creation("not-cond", "dependent-cond");
    if let ConditionRequest::CreateNot { name, dependent } = mr {
        assert_eq!(String::from("not-cond"), name);
        assert_eq!(String::from("dependent-cond"), dependent);
    } else {
        panic!("make_not_creation did not make a ConditionRequest::CreateNot");
    }
}

fn four_conds() -> Vec<String> {
    vec![String::from("cond1"), String::from("cond2"), String::from("cond3"), String::from("cond4")]
}

#[test]
fn condition_messages_make_and_1() {
    let dependent_conds = four_conds();
    let mr = ConditionMessageClient::make_and_creation("test", &dependent_conds);
    if let ConditionRequest::CreateAnd { name, dependents } = mr {
        assert_eq!(String::from("test"), name);
        assert_eq!(dependent_conds, dependents);
    } else {
        panic!("make_and_creation did not return a ConditionRequest::CreateAnd");
    }
}

#[test]
fn condition_messages_make_or_1() {
    let dependent_conds = four_conds();
    let mr = ConditionMessageClient::make_or_creation("test", &dependent_conds);
    if let ConditionRequest::CreateOr { name, dependents } = mr {
        assert_eq!(String::from("test"), name);
        assert_eq!(dependent_conds, dependents);
    } else {
        panic!("make_or_creation did not return a ConditionRequest::CreateOr");
    }
}

#[test]
fn condition_messages_make_cut_1() {
    let mr = ConditionMessageClient::make_cut_creation("a-cut", 12, bits(100.0), bits(200.0));
    if let ConditionRequest::CreateCut { name, param_id, low, high } = mr {
        assert_eq!(String::from("a-cut"), name);
        assert_eq!(12, param_id);
        assert_eq!(100.0, f64::from_bits(low));
        assert_eq!(200.0, f64::from_bits(high));
    } else {
        panic!("make_cut_creation did not return a ConditionRequest::CreateCut");
    }
}

#[test]
fn condition_messages_make_band_1() {
    let pts = pairs(&[(0.0, 100.0), (10.0, 50.0), (50.0, 25.0), (75.0, 0.0)]);
    let mr = ConditionMessageClient::make_band_creation("band", 2, 5, &pts);
    if let ConditionRequest::CreateBand { name, x_id, y_id, points } = mr {
        assert_eq!(String::from("band"), name);
        assert_eq!(2, x_id);
        assert_eq!(5, y_id);
        assert_eq!(pts, points);
    } else {
        panic!("make_band_creation did not return a ConditionRequest::CreateBand");
    }
}

#[test]
fn condition_messages_make_contour_1() {
    let pts = pairs(&[(0.0, 100.0), (10.0, 50.0), (50.0, 25.0), (75.0, 0.0)]);
    let mr = ConditionMessageClient::make_contour_creation("cont", 2, 5, &pts);
    if let ConditionRequest::CreateContour { name, x_id, y_id, points } = mr {
        assert_eq!(String::from("cont"), name);
        assert_eq!(2, x_id);
        assert_eq!(5, y_id);
        assert_eq!(pts, points);
    } else {
        panic!("make_contour_creation did not return a ConditionRequest::CreateContour");
    }
}

#[test]
fn make_delete_1() {
    let mr = ConditionMessageClient::make_delete("junk");
    assert_eq!(ConditionRequest::DeleteCondition(String::from("junk")), mr);
}

#[test]
fn make_list_1() {
    let mr = ConditionMessageClient::make_list("*");
    assert_eq!(ConditionRequest::List(String::from("*")), mr);
}

#[test]
fn make_multicut_1() {
    let mc = ConditionMessageClient::make_multicut_creation("name", &[1, 2, 3], bits(100.0), bits(200.0));
    assert_eq!(
        ConditionRequest::CreateMultiCut {
            name: String::from("name"),
            ids: vec![1, 2, 3],
            low: bits(100.0),
            high: bits(200.0)
        },
        mc
    )
}

#[test]
fn make_multicontour_1() {
    let pts = pairs(&[(100.0, 100.0), (150.0, 100.0), (125.0, 150.0)]);
    let mc = ConditionMessageClient::make_multicontour_creation("name", &vec![1, 2, 3], &pts);
    assert_eq!(
        ConditionRequest::CreateMultiContour { name: String::from("name"), ids: vec![1, 2, 3], points: pts },
        mc
    );
}

#[test]
fn make_request_carries_the_condition_request() {
    let (rep_send, _rep_recv) = channel::<Reply>();
    let req = ConditionMessageClient::make_request(rep_send, ConditionMessageClient::make_list("x*"));
    let (_, message) = req.into_parts();
    match message {
        MessageType::Condition(r) => assert_eq!(ConditionRequest::List(String::from("x*")), r),
        _ => panic!("not a condition request"),
    }
}

// The processor

#[test]
fn condition_messages_new_1() {
    let cp = ConditionProcessor::new();
    assert_eq!(0, cp.get_dict().slot_count());
}

#[test]
fn condition_messages_processor_make_true_1() {
    let mut cp = ConditionProcessor::new();
    let rep = cp.process_request(ConditionMessageClient::make_true_creation("true-cond"));
    assert_eq!(ConditionReply::Created, rep);
    assert_eq!(String::from("True"), type_of(&cp, "true-cond"));
}

#[test]
fn condition_messages_processor_make_false_1() {
    let mut cp = ConditionProcessor::new();
    let rep = cp.process_request(ConditionMessageClient::make_false_creation("false-cond"));
    assert_eq!(ConditionReply::Created, rep);
    assert_eq!(String::from("False"), type_of(&cp, "false-cond"));
}

#[test]
fn condition_messages_processor_make_not_1() {
    let mut cp = ConditionProcessor::new();
    cp.process_request(ConditionMessageClient::make_false_creation("false"));
    let rep = cp.process_request(ConditionMessageClient::make_not_creation("true", "false"));
    assert_eq!(ConditionReply::Created, rep);
    assert_eq!(String::from("Not"), type_of(&cp, "true"));
    let d = cp.get_dict();
    let deps = d.get_condition(d.get("true").unwrap()).unwrap().dependent_conditions();
    assert_eq!(1, deps.len());
    assert_eq!(String::from("False"), d.get_condition(deps[0]).unwrap().condition_type());
}

#[test]
fn not_of_undefined_condition_is_an_error() {
    let mut cp = ConditionProcessor::new();
    let rep = cp.process_request(ConditionMessageClient::make_not_creation("n", "missing"));
    assert!(matches!(rep, ConditionReply::Error(_)));
    assert!(cp.get_dict().get("n").is_none());
}

fn check_tf_dependents(cp: &ConditionProcessor, name: &str, kind: &str) {
    assert_eq!(String::from(kind), type_of(cp, name));
    let d = cp.get_dict();
    let deps = d.get_condition(d.get(name).unwrap()).unwrap().dependent_conditions();
    assert_eq!(2, deps.len());
    assert_eq!(String::from("True"), d.get_condition(deps[0]).unwrap().condition_type());
    assert_eq!(String::from("False"), d.get_condition(deps[1]).unwrap().condition_type());
}

#[test]
fn condition_messages_processor_make_and_1() {
    let mut cp = ConditionProcessor::new();
    cp.process_request(ConditionMessageClient::make_true_creation("true"));
    cp.process_request(ConditionMessageClient::make_false_creation("false"));
    let rep = cp.process_request(ConditionMessageClient::make_and_creation(
        "and",
        &vec![String::from("true"), String::from("false")],
    ));
    assert_eq!(ConditionReply::Created, rep);
    check_tf_dependents(&cp, "and", "And");
}

#[test]
fn condition_messages_processor_make_or_1() {
    let mut cp = ConditionProcessor::new();
    cp.process_request(ConditionMessageClient::make_true_creation("true"));
    cp.process_request(ConditionMessageClient::make_false_creation("false"));
    let rep = cp.process_request(ConditionMessageClient::make_or_creation(
        "or",
        &vec![String::from("true"), String::from("false")],
    ));
    assert_eq!(ConditionReply::Created, rep);
    check_tf_dependents(&cp, "or", "Or");
}

#[test]
fn and_of_undefined_condition_is_an_error() {
    let mut cp = ConditionProcessor::new();
    cp.process_request(ConditionMessageClient::make_true_creation("true"));
    let rep = cp.process_request(ConditionMessageClient::make_and_creation(
        "and",
        &vec![String::from("true"), String::from("nope")],
    ));
    assert!(matches!(rep, ConditionReply::Error(_)));
    assert!(cp.get_dict().get("and").is_none());
}

#[test]
fn condition_messages_processor_make_cut_1() {
    let mut cp = ConditionProcessor::new();
    let rep = cp.process_request(ConditionMessageClient::make_cut_creation("cut", 12, bits(100.0), bits(200.0)));
    assert_eq!(ConditionReply::Created, rep);
    assert_eq!("Cut", type_of(&cp, "cut"));
    let d = cp.get_dict();
    let pts = d.get_condition(d.get("cut").unwrap()).unwrap().condition_points();
    assert_eq!(2, pts.len());
    assert_eq!(100.0, f64::from_bits(pts[0].0));
    assert_eq!(200.0, f64::from_bits(pts[1].0));
}

fn check_points(cp: &ConditionProcessor, name: &str, expected: &Vec<(u64, u64)>) {
    let d = cp.get_dict();
    let pts = d.get_condition(d.get(name).unwrap()).unwrap().condition_points();
    assert_eq!(*expected, pts);
}

#[test]
fn condition_messages_processor_make_band_1() {
    let mut cp = ConditionProcessor::new();
    let condition_pts = pairs(&[(0.0, 100.0), (50.0, 200.0), (100.0, 50.0), (200.0, 25.0)]);
    let rep = cp.process_request(ConditionMessageClient::make_band_creation("band", 10, 15, &condition_pts));
    assert_eq!(ConditionReply::Created, rep);
    assert_eq!(String::from("Band"), type_of(&cp, "band"));
    check_points(&cp, "band", &condition_pts);
}

#[test]
fn band_with_one_point_is_an_error() {
    let mut cp = ConditionProcessor::new();
    let rep = cp.process_request(ConditionMessageClient::make_band_creation("band", 10, 15, &pairs(&[(1.0, 1.0)])));
    assert!(matches!(rep, ConditionReply::Error(_)));
}

#[test]
fn condition_messages_processor_make_contour_1() {
    let mut cp = ConditionProcessor::new();
    let condition_pts = pairs(&[(0.0, 100.0), (50.0, 200.0), (100.0, 50.0), (200.0, 25.0)]);
    let rep = cp.process_request(ConditionMessageClient::make_contour_creation("contour", 10, 15, &condition_pts));
    assert_eq!(ConditionReply::Created, rep);
    assert_eq!(String::from("Contour"), type_of(&cp, "contour"));
    check_points(&cp, "contour", &condition_pts);
}

#[test]
fn make_replace_1() {
    let mut cp = ConditionProcessor::new();
    cp.process_request(ConditionMessageClient::make_true_creation("acondition"));
    assert_eq!("True", type_of(&cp, "acondition"));
    let slot = cp.get_dict().get("acondition").unwrap();
    let result = cp.process_request(ConditionMessageClient::make_false_creation("acondition"));
    assert_eq!(ConditionReply::Replaced, result);
    // The replacement took the slot of the condition it replaced.
    assert_eq!("False", cp.get_dict().get_condition(slot).unwrap().condition_type());
}

#[test]
fn condition_messages_delete_1() {
    let mut cp = ConditionProcessor::new();
    cp.process_request(ConditionMessageClient::make_true_creation("true"));
    cp.process_request(ConditionMessageClient::make_false_creation("false"));
    let reply = cp.process_request(ConditionMessageClient::make_delete("true"));
    assert_eq!(ConditionReply::Deleted, reply);
    assert_eq!(vec![String::from("false")], cp.get_dict().names());
    assert!(cp.get_dict().get("true").is_none());
}

#[test]
fn delete_2() {
    let mut cp = ConditionProcessor::new();
    cp.process_request(ConditionMessageClient::make_true_creation("true"));
    let reply = cp.process_request(ConditionMessageClient::make_delete("false"));
    assert!(matches!(reply, ConditionReply::Error(_)));
}

fn make_list_conditions() -> ConditionProcessor {
    let mut cp = ConditionProcessor::new();
    cp.process_request(ConditionMessageClient::make_true_creation("true"));
    cp.process_request(ConditionMessageClient::make_false_creation("false"));
    cp.process_request(ConditionMessageClient::make_cut_creation("t-cut", 12, bits(100.0), bits(200.0)));
    cp.process_request(ConditionMessageClient::make_and_creation(
        "fake",
        &vec![String::from("true"), String::from("t-cut")],
    ));
    cp
}

fn by_name(list: Vec<ConditionProperties>) -> HashMap<String, ConditionProperties> {
    let mut hash = HashMap::new();
    for c in list {
        hash.insert(c.cond_name.clone(), c);
    }
    hash
}

#[test]
fn condition_messages_list_1() {
    let mut cp = make_list_conditions();
    let reply = cp.process_request(ConditionMessageClient::make_list("*"));
    if let ConditionReply::Listing(list) = reply {
        assert_eq!(4, list.len());
        let hash = by_name(list);
        assert_eq!(String::from("True"), hash.get("true").unwrap().cond_type);
        assert_eq!(String::from("False"), hash.get("false").unwrap().cond_type);
        let c = hash.get("t-cut").unwrap();
        assert_eq!(String::from("Cut"), c.cond_type);
        assert_eq!(2, c.points.len());
        assert_eq!(100.0, f64::from_bits(c.points[0].0));
        assert_eq!(200.0, f64::from_bits(c.points[1].0));
        assert_eq!(vec![12], c.parameters);
        let a = hash.get("fake").unwrap();
        assert_eq!(String::from("And"), a.cond_type);
        assert_eq!(vec![String::from("true"), String::from("t-cut")], a.gates);
    } else {
        panic!("list request did not return a listing");
    }
}

#[test]
fn condition_messages_list_2() {
    let mut cp = make_list_conditions();
    let reply = cp.process_request(ConditionMessageClient::make_list("f*"));
    if let ConditionReply::Listing(list) = reply {
        assert_eq!(2, list.len());
        let hash = by_name(list);
        assert!(hash.get("true").is_none());
        assert_eq!(String::from("False"), hash.get("false").unwrap().cond_type);
        assert!(hash.get("t-cut").is_none());
        let a = hash.get("fake").unwrap();
        assert_eq!(String::from("And"), a.cond_type);
        assert_eq!(vec![String::from("true"), String::from("t-cut")], a.gates);
    } else {
        panic!("List operation did not return ConditionReply::Listing")
    }
}

#[test]
fn condition_messages_list_3() {
    let mut cp = make_list_conditions();
    let reply = cp.process_request(ConditionMessageClient::make_list("[Astuff"));
    assert!(matches!(reply, ConditionReply::Error(_)));
}

#[test]
fn listing_is_in_slot_order_and_names_deleted_dependents() {
    let mut cp = make_list_conditions();
    cp.process_request(ConditionMessageClient::make_delete("t-cut"));
    let reply = cp.process_request(ConditionMessageClient::make_list("*"));
    if let ConditionReply::Listing(list) = reply {
        let names: Vec<String> = list.iter().map(|c| c.cond_name.clone()).collect();
        assert_eq!(vec![String::from("true"), String::from("false"), String::from("fake")], names);
        assert_eq!(vec![String::from("true"), String::from("-deleted-")], list[2].gates);
    } else {
        panic!("no listing");
    }
}

#[test]
fn create_multi1_1() {
    let mut cp = ConditionProcessor::new();
    let rep = cp.process_request(ConditionMessageClient::make_multicut_creation(
        "test",
        &[1, 2, 3],
        bits(100.0),
        bits(200.0),
    ));
    assert_eq!(ConditionReply::Created, rep);
    assert_eq!(String::from("MultiCut"), type_of(&cp, "test"));
}

#[test]
fn create_multi2_1() {
    let mut cp = ConditionProcessor::new();
    let rep = cp.process_request(ConditionMessageClient::make_multicontour_creation(
        "test",
        &[1, 2, 3],
        &pairs(&[(100.0, 100.0), (150.0, 100.0), (125.0, 200.0)]),
    ));
    assert_eq!(ConditionReply::Created, rep);
    assert_eq!(String::from("MultiContour"), type_of(&cp, "test"));
}

#[test]
fn create_multi2_2() {
    let mut cp = ConditionProcessor::new();
    let rep = cp.process_request(ConditionMessageClient::make_multicontour_creation(
        "test",
        &[1, 2, 3],
        &pairs(&[(100.0, 100.0), (150.0, 100.0)]),
    ));
    assert!(matches!(rep, ConditionReply::Error(_)));
}

// The client

#[test]
fn client_without_server_reports_error() {
    let (send, recv) = channel::<Request>();
    drop(recv);
    let api = ConditionMessageClient::new(&send);
    assert_eq!(
        ConditionReply::Error(String::from("Send to histogramer failed!")),
        api.create_true_condition("t")
    );
}

// Rebuilding a contour from its listing

#[test]
fn condition_messages_err_1() {
    let desc = ConditionProperties {
        cond_name: String::from("junk"),
        cond_type: String::from("Not a contour"),
        points: vec![],
        gates: vec![],
        parameters: vec![],
    };
    assert!(reconstitute_contour(desc).is_err());
}

#[test]
fn condition_messages_err_2() {
    let desc = ConditionProperties {
        cond_name: String::from("junk"),
        cond_type: String::from("Contour"),
        points: pairs(&[(100.0, 100.0), (200.0, 100.0)]),
        gates: vec![],
        parameters: vec![],
    };
    assert!(reconstitute_contour(desc).is_err());
}

#[test]
fn condition_messages_ok_1() {
    let pts = pairs(&[(100.0, 100.0), (200.0, 100.0), (150.0, 150.0)]);
    let desc = ConditionProperties {
        cond_name: String::from("junk"),
        cond_type: String::from("Contour"),
        points: pts.clone(),
        gates: vec![],
        parameters: vec![],
    };
    let result = reconstitute_contour(desc);
    assert!(result.is_ok());
    let contour_points = result.unwrap().get_points();
    assert_eq!(pts.len(), contour_points.len());
    for (i, p) in pts.iter().enumerate() {
        assert_eq!(p.0, contour_points[i].x, "X mismatch on point {}", i);
        assert_eq!(p.1, contour_points[i].y, "Y mismatch on point {}", i);
    }
}

#[test]
fn condition_result_of_outcomes() {
    match condition_result(Ok(Reply::Condition(ConditionReply::Created))) {
        ConditionReply::Created => {}
        _ => panic!("expected the reply that came back"),
    }
    match condition_result(Ok(Reply::Exiting)) {
        ConditionReply::Error(s) => assert_eq!(
            s,
            "Condition transaction expected a condition reply but got something different"
        ),
        _ => panic!("expected an error"),
    }
    match condition_result(Err(String::from("Send to histogramer failed!"))) {
        ConditionReply::Error(s) => assert_eq!(s, "Send to histogramer failed!"),
        _ => panic!("expected an error"),
    }
}

// The requests of the client, served one at a time by a histogrammer and
// answered as the client answers them.

struct Served {
    hist: Histogramer,
    _requests: std::sync::mpsc::Sender<Request>,
}

fn served() -> Served {
    let (send, recv) = channel::<Request>();
    Served { hist: Histogramer::new(recv), _requests: send }
}

impl Served {
    fn ask(&mut self, req: ConditionRequest) -> ConditionReply {
        let (rep_send, rep_recv) = channel::<Reply>();
        let request = ConditionMessageClient::make_request(rep_send, req);
        assert!(self.hist.handle_request(Some(request)));
        condition_result(Request::get_reply(&rep_recv).ok_or(String::from("no reply")))
    }
    fn list(&mut self, pattern: &str) -> ConditionReply {
        self.ask(ConditionMessageClient::make_list(pattern))
    }
}

#[test]
fn condition_messages_false_1() {
    let mut api = served();
    let repl = api.ask(ConditionMessageClient::make_false_creation("false"));
    if let ConditionReply::Created = repl {
        if let ConditionReply::Listing(l) = api.list("*") {
            assert_eq!(1, l.len());
            assert_eq!(String::from("false"), l[0].cond_name);
            assert_eq!(String::from("False"), l[0].cond_type);
        } else {
            panic!("Failed to list conditions.")
        }
    } else {
        panic!("Failed to create a false condition");
    }
}

#[test]
fn condition_messages_true_1() {
    let mut api = served();
    let repl = api.ask(ConditionMessageClient::make_true_creation("true"));
    if let ConditionReply::Created = repl {
        if let ConditionReply::Listing(l) = api.list("*") {
            assert_eq!(1, l.len());
            assert_eq!(String::from("true"), l[0].cond_name);
            assert_eq!(String::from("True"), l[0].cond_type);
        } else {
            panic!("Failed to list conditions.")
        }
    } else {
        panic!("Failed to create a false condition");
    }
}

#[test]
fn not_1() {
    let mut api = served();
    api.ask(ConditionMessageClient::make_false_creation("false"));
    let repl = api.ask(ConditionMessageClient::make_not_creation("true", "false"));
    if let ConditionReply::Created = repl {
        if let ConditionReply::Listing(l) = api.list("true") {
            assert_eq!(1, l.len());
            assert_eq!(String::from("Not"), l[0].cond_type);
            assert_eq!(1, l[0].gates.len());
            assert_eq!(String::from("false"), l[0].gates[0]);
        } else {
            panic!("failed to list the conditions");
        }
    } else {
        panic!("Failed to make not conditions");
    }
}

#[test]
fn multi_cut_1() {
    let mut api = served();
    let reply = api.ask(ConditionMessageClient::make_multicut_creation("test", &[1, 2, 3], bits(100.0), bits(200.0)));
    assert_eq!(ConditionReply::Created, reply);
    let l = api.list("test");
    assert_eq!(
        ConditionReply::Listing(vec![ConditionProperties {
            cond_name: String::from("test"),
            cond_type: String::from("MultiCut"),
            points: pairs(&[(100.0, 0.0), (200.0, 0.0)]),
            gates: vec![],
            parameters: vec![1, 2, 3]
        },]),
        l
    );
}

#[test]
fn multi_cont_1() {
    let mut api = served();
    let reply = api.ask(ConditionMessageClient::make_multicontour_creation(
        "test",
        &vec![1, 2, 3],
        &pairs(&[(10.0, 0.0), (20.0, 0.0), (15.0, 20.0)]),
    ));
    assert_eq!(ConditionReply::Created, reply);
    let l = api.list("test");
    assert_eq!(
        ConditionReply::Listing(vec![ConditionProperties {
            cond_name: String::from("test"),
            cond_type: String::from("MultiContour"),
            points: pairs(&[(10.0, 0.0), (20.0, 0.0), (15.0, 20.0)]),
            gates: vec![],
            parameters: vec![1, 2, 3]
        },]),
        l
    );
}

fn make_some_conditions(api: &mut Served) {
    for i in 0..5 {
        let name = format!("condition.{}", i);
        if let ConditionReply::Created = api.ask(ConditionMessageClient::make_true_creation(&name)) {
        } else {
            panic!("Unable to creae condition {}", name);
        }
    }
}

fn dependents_1_to_4() -> Vec<String> {
    vec![
        String::from("condition.1"),
        String::from("condition.2"),
        String::from("condition.3"),
        String::from("condition.4"),
    ]
}

#[test]
fn and_1() {
    let mut api = served();
    make_some_conditions(&mut api);
    let names = dependents_1_to_4();
    if let ConditionReply::Created = api.ask(ConditionMessageClient::make_and_creation("and", &names)) {
        if let ConditionReply::Listing(l) = api.list("and") {
            assert_eq!(1, l.len());
            assert_eq!(String::from("And"), l[0].cond_type);
            assert_eq!(names.len(), l[0].gates.len());
            for (i, n) in names.iter().enumerate() {
                assert_eq!(*n, l[0].gates[i]);
            }
        } else {
            panic!("Listing failed in some way");
        }
    } else {
        panic!("Could not make and condition");
    }
}

#[test]
fn or_1() {
    let mut api = served();
    make_some_conditions(&mut api);
    let names = dependents_1_to_4();
    if let ConditionReply::Created = api.ask(ConditionMessageClient::make_or_creation("or", &names)) {
        if let ConditionReply::Listing(l) = api.list("or") {
            assert_eq!(1, l.len());
            assert_eq!(String::from("Or"), l[0].cond_type);
            assert_eq!(names.len(), l[0].gates.len());
            for (i, n) in names.iter().enumerate() {
                assert_eq!(*n, l[0].gates[i]);
            }
        } else {
            panic!("Listing failed in some way");
        }
    } else {
        panic!("Could not make and condition");
    }
}

#[test]
fn cut_1() {
    let mut api = served();
    if let ConditionReply::Created = api.ask(ConditionMessageClient::make_cut_creation("cut", 12, bits(100.0), bits(250.0))) {
        if let ConditionReply::Listing(l) = api.list("*") {
            assert_eq!(1, l.len());
            assert_eq!(String::from("Cut"), l[0].cond_type);
            assert_eq!(2, l[0].points.len());
            assert_eq!(100.0, f64::from_bits(l[0].points[0].0));
            assert_eq!(250.0, f64::from_bits(l[0].points[1].0));
            assert_eq!(1, l[0].parameters.len());
            assert_eq!(12, l[0].parameters[0]);
        } else {
            panic!("Failed to get Listing from list request");
        }
    } else {
        panic!("Did not get Created back from creation of cut");
    }
}

fn make_points() -> Vec<(f64, f64)> {
    vec![(0.0, 100.0), (100.0, 100.0), (200.0, 50.0), (400.0, 0.0)]
}

fn check_listed_twod(l: &[ConditionProperties], kind: &str, points: &[(f64, f64)]) {
    assert_eq!(1, l.len());
    assert_eq!(String::from(kind), l[0].cond_type);
    assert_eq!(points.len(), l[0].points.len());
    for (i, (x, y)) in points.iter().enumerate() {
        assert_eq!(*x, f64::from_bits(l[0].points[i].0));
        assert_eq!(*y, f64::from_bits(l[0].points[i].1));
    }
    assert_eq!(2, l[0].parameters.len());
    assert_eq!(5, l[0].parameters[0]);
    assert_eq!(6, l[0].parameters[1]);
}

#[test]
fn band_1() {
    let mut api = served();
    let points = make_points();
    if let ConditionReply::Created = api.ask(ConditionMessageClient::make_band_creation("band", 5, 6, &pairs(&points))) {
        if let ConditionReply::Listing(l) = api.list("*") {
            check_listed_twod(&l, "Band", &points);
        } else {
            panic!("Failed to get listing");
        }
    } else {
        panic!("Failed to make band condition.");
    }
}

#[test]
fn contour_1() {
    let mut api = served();
    let points = make_points();
    if let ConditionReply::Created =
        api.ask(ConditionMessageClient::make_contour_creation("contour", 5, 6, &pairs(&points)))
    {
        if let ConditionReply::Listing(l) = api.list("*") {
            check_listed_twod(&l, "Contour", &points);
        } else {
            panic!("Failed to get listing");
        }
    } else {
        panic!("Failed to make band condition.");
    }
}

#[test]
fn served_delete_1() {
    let mut api = served();
    make_some_conditions(&mut api);
    if let ConditionReply::Deleted = api.ask(ConditionMessageClient::make_delete("condition.0")) {
        if let ConditionReply::Listing(l) = api.list("condition.0") {
            assert_eq!(0, l.len());
        } else {
            panic!("failed to list conditions");
        }
    } else {
        panic!("Not Deleted answer back from delete_condition");
    }
}

#[test]
fn condition_messages_replace_1() {
    let mut api = served();
    make_some_conditions(&mut api);
    if let ConditionReply::Replaced = api.ask(ConditionMessageClient::make_false_creation("condition.1")) {
        if let ConditionReply::Listing(l) = api.list("condition.1") {
            assert_eq!(1, l.len());
            assert_eq!(String::from("False"), l[0].cond_type);
        }
    } else {
        panic!("Replacement did not return replaced reply.");
    }
}

#[test]
fn served_list_1() {
    let mut api = served();
    if let ConditionReply::Listing(l) = api.list("*") {
        assert_eq!(0, l.len());
    } else {
        panic!("List did not give a Listing reply");
    }
}
