//! Messages between the clients and the histogramming thread.
//!
//! A request carries its payload and the channel on which the reply is to
//! be sent.  Sending and receiving go through `std::sync::mpsc` channels;
//! a failure (the other end is gone) is reported as an error rather than
//! handled here.
use vstd::prelude::*;
use std::sync::mpsc::{Receiver, Sender};
use crate::messaging::parameter_messages::{ParameterReply, ParameterRequest};
use crate::messaging::condition_messages::{ConditionReply, ConditionRequest};
use crate::messaging::spectrum_messages::{SpectrumReply, SpectrumRequest};

pub mod parameter_messages;
pub mod condition_messages;
pub mod spectrum_messages;

verus! {

#[verifier::external_type_specification]
#[verifier::external_body]
#[verifier::reject_recursive_types(T)]
pub struct ExSender<T>(Sender<T>);

#[verifier::external_type_specification]
#[verifier::external_body]
#[verifier::reject_recursive_types(T)]
pub struct ExReceiver<T>(Receiver<T>);

/// Calls `Sender::send`; `true` when the message was handed to the
/// channel.  Whether that succeeds depends on the receiving thread, so
/// nothing is promised of it.
#[verifier::external_body]
pub(crate) fn channel_send<T>(chan: &Sender<T>, msg: T) -> bool {
    chan.send(msg).is_ok()
}

/// Calls `Receiver::recv`; `None` when every sender is gone.  What arrives
/// depends on other threads, so nothing is promised of it.
#[verifier::external_body]
pub(crate) fn channel_recv<T>(chan: &Receiver<T>) -> Option<T> {
    chan.recv().ok()
}

/// Calls `std::sync::mpsc::channel`: a new channel, sending and receiving
/// ends.
#[verifier::external_body]
pub(crate) fn new_channel<T>() -> (Sender<T>, Receiver<T>) {
    std::sync::mpsc::channel()
}

/// Calls `Sender::clone`: another sending end of the same channel.  That
/// it feeds the same channel is left unsaid: the library gives channels no
/// identity that a contract could name.
#[verifier::external_body]
pub(crate) fn clone_sender<T>(chan: &Sender<T>) -> Sender<T> {
    chan.clone()
}

/// The part of the histogrammer a request is addressed to, with the
/// request itself.
#[derive(Clone)]
pub enum MessageType {
    Parameter(ParameterRequest),
    Condition(ConditionRequest),
    Spectrum(SpectrumRequest),
    Exit,
}

/// A reply of the histogrammer.
pub enum Reply {
    Parameter(ParameterReply),
    Condition(ConditionReply),
    Spectrum(SpectrumReply),
    Exiting,
}

/// A request: its payload and the channel on which to reply.
pub struct Request {
    reply_channel: Sender<Reply>,
    message: MessageType,
}

impl Request {
    /// The payload.
    pub closed spec fn spec_message(&self) -> MessageType {
        self.message
    }

    /// The channel the reply is to be sent on.
    pub closed spec fn spec_reply_channel(&self) -> Sender<Reply> {
        self.reply_channel
    }

    /// A request with payload `message`, to be answered on `reply_channel`.
    pub fn new(reply_channel: Sender<Reply>, message: MessageType) -> (r: Request)
        ensures
            r.spec_message() == message,
            r.spec_reply_channel() == reply_channel,
    {
        Request { reply_channel, message }
    }

    /// Splits the request into its reply channel and its payload.
    pub fn into_parts(self) -> (r: (Sender<Reply>, MessageType))
        ensures
            r.0 == self.spec_reply_channel(),
            r.1 == self.spec_message(),
    {
        (self.reply_channel, self.message)
    }

    /// Sends the request to the histogrammer along `chan`.
    pub fn send(self, chan: &Sender<Request>) -> (r: Result<(), String>)
        ensures
            r matches Err(e) ==> e@ == "Send to histogramer failed!"@,
    {
        if channel_send(chan, self) {
            Ok(())
        } else {
            proof {
                reveal_strlit("Send to histogramer failed!");
            }
            Err(String::from_str("Send to histogramer failed!"))
        }
    }

    /// Receives a request (by the histogrammer); `None` when every client
    /// is gone.
    pub fn get_request(chan: &Receiver<Request>) -> Option<Request> {
        channel_recv(chan)
    }

    /// Sends `msg` to the client that made the request.
    pub fn send_reply(&self, msg: Reply) -> (r: Result<(), String>)
        ensures
            r matches Err(e) ==> e@ == "Histogramer failed to send reply to client"@,
    {
        if channel_send(&self.reply_channel, msg) {
            Ok(())
        } else {
            proof {
                reveal_strlit("Histogramer failed to send reply to client");
            }
            Err(String::from_str("Histogramer failed to send reply to client"))
        }
    }

    /// Receives a reply from the histogrammer; `None` when it is gone.
    pub fn get_reply(chan: &Receiver<Reply>) -> Option<Reply> {
        channel_recv(chan)
    }

    /// Sends the request along `req` and waits for the reply on `reply`.
    pub fn transaction(self, req: &Sender<Request>, reply: &Receiver<Reply>) -> (r: Result<Reply, String>)
        ensures
            r matches Err(e) ==> e@ == "Send to histogramer failed!"@ || e@
                == "Read of reply from histogramer failed!"@,
    {
        match self.send(req) {
            Err(e) => Err(e),
            Ok(()) => match Self::get_reply(reply) {
                Some(rep) => Ok(rep),
                None => {
                    proof {
                        reveal_strlit("Read of reply from histogramer failed!");
                    }
                    Err(String::from_str("Read of reply from histogramer failed!"))
                },
            },
        }
    }
}

} // verus!
