//! The histogramming thread's request handling: a request processor that
//! owns the parameter, condition and spectrum processors, and the server
//! state that
//! takes requests from a channel, processes them and answers them.  The
//! thread itself is started and run by the program around the library.
use vstd::prelude::*;
use std::sync::mpsc::{Receiver, Sender};
use crate::messaging::{MessageType, Reply, Request, channel_send, new_channel};
use crate::messaging::parameter_messages::{ParameterProcessor, parameter_request_served};
use crate::messaging::condition_messages::{ConditionProcessor, condition_request_served};
use crate::messaging::spectrum_messages::{SpectrumProcessor, SpectrumRequest, store_answer};
use crate::spectra::SpectrumView;
use crate::conditions::{has_named, named, same_conditions, slot_caches};
use crate::parameters::{Event, EventParameter, FlatEvent, event_views};

verus! {

/// The request `req` hands events to the spectra.
pub open spec fn has_events(req: SpectrumRequest) -> bool {
    req matches SpectrumRequest::Events(v) && v@.len() > 0
}

/// `new` and `reply` are what the spectrum store makes of `req` (see
/// `store_answer`, with the parameters and conditions of `old`); events
/// forget the cached results of the conditions, and nothing else changes.
pub open spec fn spectrum_request_served(old: RequestProcessor, req: SpectrumRequest, new: RequestProcessor, reply: Reply) -> bool {
    &&& reply matches Reply::Spectrum(rep) && store_answer(
        old.spec_spectra(),
        req,
        old.spec_parameters().spec_dict()@,
        old.spec_conditions().spec_dict().entries(),
        new.spec_spectra(),
        rep,
    )
    &&& new.spec_parameters() == old.spec_parameters()
    &&& new.spec_conditions().wf()
    &&& same_conditions(old.spec_conditions().spec_dict().entries(), new.spec_conditions().spec_dict().entries())
    &&& has_events(req) ==> forall|i: int|
        0 <= i < new.spec_conditions().spec_dict().entries().len() ==> #[trigger] slot_caches(
            new.spec_conditions().spec_dict().entries(),
        )[i] is None
    &&& !has_events(req) ==> new.spec_conditions().spec_dict() == old.spec_conditions().spec_dict()
}

/// `new` and `reply` are what serving `message` makes of the processors
/// `old`: a parameter or condition request is served by the processor of
/// that part (the others are unchanged), a spectrum request is answered by
/// the spectrum store (events forget the cached results of the
/// conditions), and `Exit` is answered `Exiting`.
pub open spec fn message_served(old: RequestProcessor, message: MessageType, new: RequestProcessor, reply: Reply) -> bool {
    match message {
        MessageType::Parameter(req) => reply matches Reply::Parameter(rep) && parameter_request_served(
            old.spec_parameters(),
            req,
            new.spec_parameters(),
            rep,
        ) && new.spec_conditions() == old.spec_conditions() && new.spec_spectra() == old.spec_spectra(),
        MessageType::Condition(req) => reply matches Reply::Condition(rep) && condition_request_served(
            old.spec_conditions(),
            req,
            new.spec_conditions(),
            rep,
        ) && new.spec_parameters() == old.spec_parameters() && new.spec_spectra() == old.spec_spectra(),
        MessageType::Spectrum(req) => spectrum_request_served(old, req, new, reply),
        MessageType::Exit => reply is Exiting && new == old,
    }
}

/// The processors of each part of the histogrammer.
pub struct RequestProcessor {
    parameters: ParameterProcessor,
    conditions: ConditionProcessor,
    spectra: SpectrumProcessor,
}

impl RequestProcessor {
    /// The parameter processor.
    pub closed spec fn spec_parameters(&self) -> ParameterProcessor {
        self.parameters
    }

    /// The condition processor.
    pub closed spec fn spec_conditions(&self) -> ConditionProcessor {
        self.conditions
    }

    /// The spectrum processor.
    pub closed spec fn spec_spectra_processor(&self) -> SpectrumProcessor {
        self.spectra
    }

    /// The spectra.
    pub open spec fn spec_spectra(&self) -> Seq<SpectrumView> {
        self.spec_spectra_processor().spec_spectra()
    }

    /// The processors are well formed.
    pub open spec fn wf(&self) -> bool {
        self.spec_parameters().wf() && self.spec_conditions().wf() && self.spec_spectra_processor().wf()
    }

    /// Processors with empty dictionaries; the first parameter created gets
    /// the id 1.
    pub fn new() -> (r: RequestProcessor)
        ensures
            r.wf(),
            r.spec_parameters().spec_dict()@.len() == 0,
            r.spec_parameters().spec_dict().spec_next_id() == 1,
            r.spec_conditions().spec_dict().entries().len() == 0,
            r.spec_spectra().len() == 0,
    {
        RequestProcessor {
            parameters: ParameterProcessor::new(),
            conditions: ConditionProcessor::new(),
            spectra: SpectrumProcessor::new(),
        }
    }

    /// The parameter processor.
    pub fn get_parameters(&self) -> (r: &ParameterProcessor)
        ensures
            *r == self.spec_parameters(),
    {
        &self.parameters
    }

    /// The condition processor.
    pub fn get_conditions(&self) -> (r: &ConditionProcessor)
        ensures
            *r == self.spec_conditions(),
    {
        &self.conditions
    }

    /// The spectrum processor.
    pub fn get_spectra(&self) -> (r: &SpectrumProcessor)
        ensures
            *r == self.spec_spectra_processor(),
    {
        &self.spectra
    }

    /// Hands out the events not yet histogrammed (see
    /// `SpectrumProcessor::take_events`).
    pub fn take_events(&mut self) -> (r: Vec<Event>)
        requires
            old(self).wf(),
        ensures
            final(self).wf(),
            event_views(r@) == old(self).spec_spectra_processor().spec_pending(),
            final(self).spec_spectra_processor().spec_pending() == Seq::<Seq<EventParameter>>::empty(),
            final(self).spec_spectra() == old(self).spec_spectra(),
            final(self).spec_parameters() == old(self).spec_parameters(),
            final(self).spec_conditions() == old(self).spec_conditions(),
    {
        self.spectra.take_events()
    }

    /// Installs the channel coordinates of spectrum `i` (see
    /// `SpectrumProcessor::install_coordinates`).
    pub fn install_coordinates(&mut self, i: usize, xs: Vec<u64>, ys: Vec<u64>) -> (r: bool)
        requires
            old(self).wf(),
        ensures
            final(self).wf(),
            final(self).spec_parameters() == old(self).spec_parameters(),
            final(self).spec_conditions() == old(self).spec_conditions(),
            r == (i < old(self).spec_spectra().len() && xs@.len() == old(self).spec_spectra()[i as int].nx
                && ys@.len() == old(self).spec_spectra()[i as int].ny),
            r ==> final(self).spec_spectra() == old(self).spec_spectra().update(
                i as int,
                SpectrumView { xcoords: xs@, ycoords: ys@, ..old(self).spec_spectra()[i as int] },
            ),
            !r ==> final(self).spec_spectra() == old(self).spec_spectra(),
    {
        self.spectra.install_coordinates(i, xs, ys)
    }

    /// Records a fill of spectrum `i` (see `SpectrumProcessor::record_fill`).
    pub fn record_fill(&mut self, i: usize, xi: usize, yi: usize, value: u64) -> (r: bool)
        requires
            old(self).wf(),
        ensures
            final(self).wf(),
            final(self).spec_parameters() == old(self).spec_parameters(),
            final(self).spec_conditions() == old(self).spec_conditions(),
            r == (i < old(self).spec_spectra().len() && xi < old(self).spec_spectra()[i as int].nx && yi < old(
                self,
            ).spec_spectra()[i as int].ny),
            !r ==> final(self).spec_spectra() == old(self).spec_spectra(),
    {
        self.spectra.record_fill(i, xi, yi, value)
    }

    /// Forgets the cached results of the conditions (done before each event
    /// is histogrammed).
    pub fn forget_condition_results(&mut self)
        requires
            old(self).wf(),
        ensures
            final(self).wf(),
            final(self).spec_parameters() == old(self).spec_parameters(),
            final(self).spec_spectra_processor() == old(self).spec_spectra_processor(),
            same_conditions(
                old(self).spec_conditions().spec_dict().entries(),
                final(self).spec_conditions().spec_dict().entries(),
            ),
    {
        self.conditions.get_dict_mut().invalidate_cache();
    }

    /// Checks the condition named `name` for `event` (`twod` as for
    /// `ConditionDictionary::check`); `None` when there is no such
    /// condition.  Only cached results of the conditions change.
    pub fn check_condition(&mut self, name: &str, event: &FlatEvent, twod: &Vec<bool>) -> (r: Option<bool>)
        requires
            old(self).wf(),
            forall|s: int|
                named(old(self).spec_conditions().spec_dict().entries(), name@, s) ==> old(
                    self,
                ).spec_conditions().spec_dict().checkable(s, *event, twod@),
        ensures
            final(self).wf(),
            final(self).spec_parameters() == old(self).spec_parameters(),
            final(self).spec_spectra_processor() == old(self).spec_spectra_processor(),
            r is None <==> !has_named(old(self).spec_conditions().spec_dict().entries(), name@),
            r matches Some(b) ==> exists|s: int|
                named(old(self).spec_conditions().spec_dict().entries(), name@, s) && b == old(
                    self,
                ).spec_conditions().spec_dict().check_result(s, *event, twod@),
    {
        let cdict = self.conditions.get_dict_mut();
        match cdict.get(name) {
            None => None,
            Some(s) => Some(cdict.check(s, event, twod)),
        }
    }

    /// Hands the request to the processor of its part and wraps the reply;
    /// `Exit` is answered `Exiting` (the thread that runs the processor
    /// stops on it).
    pub fn process_message(&mut self, message: MessageType) -> (r: Reply)
        requires
            old(self).wf(),
        ensures
            final(self).wf(),
            message_served(*old(self), message, *final(self), r),
    {
        match message {
            MessageType::Parameter(req) => Reply::Parameter(self.parameters.process_request(req)),
            MessageType::Condition(req) => Reply::Condition(self.conditions.process_request(req)),
            MessageType::Spectrum(req) => {
                let pdict = self.parameters.get_dict();
                let cdict = self.conditions.get_dict_mut();
                Reply::Spectrum(self.spectra.process_request(req, pdict, cdict))
            },
            MessageType::Exit => Reply::Exiting,
        }
    }
}

/// The histogramming server: a request processor and the channel its
/// requests arrive on.
pub struct Histogramer {
    processor: RequestProcessor,
    chan: Receiver<Request>,
}

impl Histogramer {
    /// The request processor.
    pub closed spec fn spec_processor(&self) -> RequestProcessor {
        self.processor
    }

    /// The request processor, for the program's work between requests
    /// (histogramming the events, installing coordinates).
    pub fn get_processor_mut(&mut self) -> (r: &mut RequestProcessor)
        ensures
            *r == old(self).spec_processor(),
            final(self).spec_processor() == *final(r),
            final(self).spec_chan() == old(self).spec_chan(),
    {
        &mut self.processor
    }

    /// The channel the requests arrive on.
    pub closed spec fn spec_chan(&self) -> Receiver<Request> {
        self.chan
    }

    /// A server with empty dictionaries taking requests from `chan`.
    pub fn new(chan: Receiver<Request>) -> (r: Histogramer)
        ensures
            r.spec_chan() == chan,
            r.spec_processor().wf(),
            r.spec_processor().spec_parameters().spec_dict()@.len() == 0,
            r.spec_processor().spec_parameters().spec_dict().spec_next_id() == 1,
            r.spec_processor().spec_conditions().spec_dict().entries().len() == 0,
            r.spec_processor().spec_spectra().len() == 0,
    {
        Histogramer { processor: RequestProcessor::new(), chan }
    }

    /// Serves one request: receives it and handles it (see
    /// `handle_request`).  `false` when the server should stop.  Whatever
    /// arrives, either nothing was served (every client is gone) and nothing
    /// changed, or some message was served and the result says whether it
    /// was other than `Exit`.
    pub fn serve_one(&mut self) -> (r: bool)
        requires
            old(self).spec_processor().wf(),
        ensures
            final(self).spec_processor().wf(),
            (!r && final(self).spec_processor() == old(self).spec_processor()) || exists|m: MessageType, rep: Reply|
                #[trigger] message_served(old(self).spec_processor(), m, final(self).spec_processor(), rep) && r == !(
                m is Exit),
    {
        let req = Request::get_request(&self.chan);
        let r = self.handle_request(req);
        proof {
            if req is Some {
                let q = req->0;
                let rep = choose|reply: Reply|
                    message_served(old(self).spec_processor(), q.spec_message(), self.spec_processor(), reply);
                assert(message_served(old(self).spec_processor(), q.spec_message(), self.spec_processor(), rep));
            }
        }
        r
    }

    /// Handles what arrived on the request channel: `None` (every client is
    /// gone) stops the server; a request is processed and its reply sent to
    /// the requester.  `false` when the server should stop: no request, or
    /// the request was `Exit` (which is still answered).
    pub fn handle_request(&mut self, req: Option<Request>) -> (r: bool)
        requires
            old(self).spec_processor().wf(),
        ensures
            final(self).spec_processor().wf(),
            match req {
                None => !r && final(self).spec_processor() == old(self).spec_processor(),
                Some(q) => {
                    &&& r == !(q.spec_message() is Exit)
                    &&& exists|reply: Reply|
                        message_served(old(self).spec_processor(), q.spec_message(), final(self).spec_processor(), reply)
                },
            },
    {
        match req {
            None => false,
            Some(req) => {
                let (reply_channel, reply) = self.answer(req);
                let exiting = match &reply {
                    Reply::Exiting => true,
                    _ => false,
                };
                channel_send(&reply_channel, reply);
                !exiting
            },
        }
    }

    /// Processes the request `req` and gives back the reply with the channel
    /// it is to be sent on: the requester's.
    pub fn answer(&mut self, req: Request) -> (r: (Sender<Reply>, Reply))
        requires
            old(self).spec_processor().wf(),
        ensures
            final(self).spec_processor().wf(),
            r.0 == req.spec_reply_channel(),
            message_served(old(self).spec_processor(), req.spec_message(), final(self).spec_processor(), r.1),
    {
        let (reply_channel, message) = req.into_parts();
        let reply = self.processor.process_message(message);
        (reply_channel, reply)
    }
}

/// Asks the server on `req_send` to exit and waits for its answer.
pub fn stop_server(req_send: &Sender<Request>) -> (r: Result<(), String>)
    ensures
        r matches Err(e) ==> e@ == "Send to histogramer failed!"@ || e@ == "Read of reply from histogramer failed!"@,
{
    let (rep_send, rep_recv) = new_channel::<Reply>();
    let req = Request::new(rep_send, MessageType::Exit);
    match req.transaction(req_send, &rep_recv) {
        Ok(_) => Ok(()),
        Err(e) => Err(e),
    }
}

} // verus!
