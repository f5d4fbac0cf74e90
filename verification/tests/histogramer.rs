use rustogrammer::histogramer::{stop_server, Histogramer, RequestProcessor};
use rustogrammer::messaging::condition_messages::{ConditionReply, ConditionRequest};
use rustogrammer::messaging::parameter_messages::{ParameterReply, ParameterRequest};
use rustogrammer::messaging::spectrum_messages::{SpectrumReply, SpectrumRequest};
use rustogrammer::messaging::{MessageType, Reply, Request};
use std::sync::mpsc::{channel, Sender};

#[test]
fn param_create_1() {
    let mut req = RequestProcessor::new();
    let msg = MessageType::Parameter(ParameterRequest::Create(String::from("test")));
    assert!(matches!(req.process_message(msg), Reply::Parameter(ParameterReply::Created)));
    let d = req.get_parameters().get_dict();
    d.lookup("test").expect("failed to find 'test' parameters");
}

#[test]
fn cond_create_1() {
    let mut req = RequestProcessor::new();
    let msg = MessageType::Condition(ConditionRequest::CreateTrue(String::from("true")));
    assert!(matches!(req.process_message(msg), Reply::Condition(ConditionReply::Created)));
    let d = req.get_conditions().get_dict();
    d.get("true").expect("Failed condition lookup");
}

#[test]
fn mod_exit_1() {
    let mut req = RequestProcessor::new();
    let msg = MessageType::Exit;
    assert!(matches!(req.process_message(msg), Reply::Exiting));
}

// The server, served one request at a time.

fn ask(hist: &mut Histogramer, chan: &Sender<Request>, message: MessageType) -> (bool, Reply) {
    let (rep_send, rep_recv) = channel::<Reply>();
    Request::new(rep_send, message).send(chan).expect("request sent");
    let go_on = hist.serve_one();
    (go_on, Request::get_reply(&rep_recv).expect("reply received"))
}

#[test]
fn exit_1() {
    let (send, recv) = channel::<Request>();
    let mut hist = Histogramer::new(recv);
    let (go_on, reply) = ask(&mut hist, &send, MessageType::Exit);
    assert!(!go_on);
    assert!(matches!(reply, Reply::Exiting));
}

#[test]
fn serve_stops_when_clients_are_gone() {
    let (send, recv) = channel::<Request>();
    let mut hist = Histogramer::new(recv);
    drop(send);
    assert!(!hist.serve_one());
}

#[test]
fn params_1() {
    let (send, recv) = channel::<Request>();
    let mut hist = Histogramer::new(recv);
    let (_, reply) = ask(&mut hist, &send, MessageType::Parameter(ParameterRequest::List(String::from("*"))));
    assert!(matches!(reply, Reply::Parameter(ParameterReply::Listing(ref l)) if l.is_empty()));
    let (go_on, reply) = ask(&mut hist, &send, MessageType::Parameter(ParameterRequest::Create(String::from("test"))));
    assert!(go_on);
    assert!(matches!(reply, Reply::Parameter(ParameterReply::Created)));
    let (_, reply) = ask(&mut hist, &send, MessageType::Parameter(ParameterRequest::List(String::from("*"))));
    if let Reply::Parameter(ParameterReply::Listing(l)) = reply {
        assert_eq!(1, l.len());
        assert_eq!(String::from("test"), l[0].get_name());
    } else {
        panic!("no listing");
    }
}

#[test]
fn conditions_1() {
    let (send, recv) = channel::<Request>();
    let mut hist = Histogramer::new(recv);
    let (_, reply) = ask(&mut hist, &send, MessageType::Condition(ConditionRequest::CreateTrue(String::from("true"))));
    assert!(matches!(reply, Reply::Condition(ConditionReply::Created)));
    let (_, reply) = ask(&mut hist, &send, MessageType::Condition(ConditionRequest::List(String::from("*"))));
    if let Reply::Condition(ConditionReply::Listing(l)) = reply {
        assert_eq!(1, l.len());
        assert_eq!(String::from("true"), l[0].cond_name);
    } else {
        panic!("no listing");
    }
}

#[test]
fn stop_without_server() {
    let (send, recv) = channel::<Request>();
    drop(recv);
    assert_eq!(Err(String::from("Send to histogramer failed!")), stop_server(&send));
}

#[test]
fn handle_request_answers_and_decides() {
    let (_send, recv) = channel::<Request>();
    let mut hist = Histogramer::new(recv);
    assert!(!hist.handle_request(None));

    let (rep_send, rep_recv) = channel::<Reply>();
    let req = Request::new(rep_send, MessageType::Parameter(ParameterRequest::Create(String::from("p"))));
    assert!(hist.handle_request(Some(req)));
    assert!(matches!(rep_recv.recv().unwrap(), Reply::Parameter(ParameterReply::Created)));

    let (rep_send, rep_recv) = channel::<Reply>();
    assert!(!hist.handle_request(Some(Request::new(rep_send, MessageType::Exit))));
    assert!(matches!(rep_recv.recv().unwrap(), Reply::Exiting));
}

#[test]
fn spec_clear_1() {
    // Clear, because no spectra are needed for that.
    let mut req = RequestProcessor::new();
    let msg = MessageType::Spectrum(SpectrumRequest::Clear(String::from("*")));
    assert!(matches!(req.process_message(msg), Reply::Spectrum(SpectrumReply::Cleared)));
}
