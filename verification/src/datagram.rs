//! Decisions of the UDP services: the forwarder and the listener, which
//! answer each datagram with its hash, and the receivers that count the
//! answers coming back to a client.

use vstd::prelude::*;
use crate::hashing::{hash_reply, reply_bytes};

verus! {

/// What one turn of the forwarder observed.
pub enum ForwarderEvent {
    /// The shared cancel flag was set.
    Cancelled,
    /// Receiving failed.
    RecvFailed,
    /// A datagram with this payload arrived.
    Datagram(Vec<u8>),
}

/// What the forwarder does next.
pub enum ForwarderAction {
    /// Stop successfully.
    Finish,
    /// Stop with the receive error.
    Fail,
    /// Count the datagram as received and as sent, then send these bytes back
    /// to its source; a failed send is only logged.
    Reply(Vec<u8>),
}

/// One turn of the forwarder: stop on cancellation, fail on a receive error,
/// and answer a datagram with the eight-byte hash of its payload.
pub fn forwarder_step(event: &ForwarderEvent) -> (action: ForwarderAction)
    ensures
        match event {
            ForwarderEvent::Cancelled => action is Finish,
            ForwarderEvent::RecvFailed => action is Fail,
            ForwarderEvent::Datagram(body) => action matches ForwarderAction::Reply(reply)
                && reply@ == reply_bytes(body@),
        },
{
    match event {
        ForwarderEvent::Cancelled => ForwarderAction::Finish,
        ForwarderEvent::RecvFailed => ForwarderAction::Fail,
        ForwarderEvent::Datagram(body) => ForwarderAction::Reply(hash_reply(body.as_slice())),
    }
}

/// What the listener observed.
pub enum ListenerEvent {
    /// Receiving failed.
    RecvFailed,
    /// A datagram with this payload arrived.
    Datagram(Vec<u8>),
    /// The last reply was sent.
    Sent,
    /// Sending the last reply failed.
    SendFailed,
}

/// What the listener does next.
pub enum ListenerAction {
    /// Receive the next datagram.
    Receive,
    /// Count one datagram received and send these bytes to its source.
    Send(Vec<u8>),
    /// Count one reply sent, then receive the next datagram.
    CountSentAndReceive,
}

/// The listener's output buffer. A reply is appended to it and the whole
/// buffer is sent; it is emptied only after a send succeeds, so the replies
/// of datagrams whose answer could not be sent go out with the next one.
pub struct Listener {
    pending: Vec<u8>,
}

impl View for Listener {
    type V = Seq<u8>;

    /// The bytes written to the output buffer since it was last emptied.
    closed spec fn view(&self) -> Seq<u8> {
        self.pending@
    }
}

impl Listener {
    /// A listener whose output buffer is empty.
    pub fn new() -> (listener: Listener)
        ensures
            listener@ == Seq::<u8>::empty(),
    {
        Listener { pending: Vec::new() }
    }

    /// The number of bytes waiting in the output buffer.
    pub fn pending_len(&self) -> (len: usize)
        ensures
            len == self@.len(),
    {
        self.pending.len()
    }

    /// One turn of the listener: a datagram's reply is appended to the
    /// output buffer and the buffer is sent; a successful send empties it; a
    /// failed send or receive changes nothing.
    pub fn step(&mut self, event: &ListenerEvent) -> (action: ListenerAction)
        requires
            event matches ListenerEvent::Datagram(_) ==> old(self)@.len() + 8 <= usize::MAX,
        ensures
            match event {
                ListenerEvent::RecvFailed => action is Receive && final(self)@ == old(self)@,
                ListenerEvent::Datagram(body) => {
                    &&& final(self)@ == old(self)@ + reply_bytes(body@)
                    &&& action matches ListenerAction::Send(out) && out@ == final(self)@
                },
                ListenerEvent::Sent => action is CountSentAndReceive && final(self)@ == Seq::<u8>::empty(),
                ListenerEvent::SendFailed => action is Receive && final(self)@ == old(self)@,
            },
    {
        match event {
            ListenerEvent::RecvFailed => ListenerAction::Receive,
            ListenerEvent::Datagram(body) => {
                let mut reply = hash_reply(body.as_slice());
                self.pending.append(&mut reply);
                ListenerAction::Send(self.pending.clone())
            },
            ListenerEvent::Sent => {
                self.pending.clear();
                ListenerAction::CountSentAndReceive
            },
            ListenerEvent::SendFailed => ListenerAction::Receive,
        }
    }
}

/// What a receiver of replies observed.
pub enum ReceiverEvent {
    /// The shared cancel flag was set.
    Cancelled,
    /// Receiving failed.
    RecvFailed,
    /// A reply arrived.
    Received,
}

/// What a receiver does next.
pub enum ReceiverAction {
    /// Stop receiving.
    Stop,
    /// Receive again without counting.
    Receive,
    /// Count one reply received, then receive again.
    CountAndReceive,
}

/// One turn of the receiver that runs beside a payload sender: stop on
/// cancellation or on a receive error, count every reply.
pub fn sender_receiver_step(event: &ReceiverEvent) -> (action: ReceiverAction)
    ensures
        match event {
            ReceiverEvent::Cancelled => action is Stop,
            ReceiverEvent::RecvFailed => action is Stop,
            ReceiverEvent::Received => action is CountAndReceive,
        },
{
    match event {
        ReceiverEvent::Cancelled => ReceiverAction::Stop,
        ReceiverEvent::RecvFailed => ReceiverAction::Stop,
        ReceiverEvent::Received => ReceiverAction::CountAndReceive,
    }
}

/// One turn of the video client's receiver, which is never cancelled: a
/// receive error is skipped and every reply is counted.
pub fn client_receiver_step(event: &ReceiverEvent) -> (action: ReceiverAction)
    requires
        !(event is Cancelled),
    ensures
        match event {
            ReceiverEvent::RecvFailed => action is Receive,
            _ => action is CountAndReceive,
        },
{
    match event {
        ReceiverEvent::RecvFailed => ReceiverAction::Receive,
        _ => ReceiverAction::CountAndReceive,
    }
}

} // verus!
