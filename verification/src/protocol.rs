//! Protocol between the halves.
//!
//! The protocol is a simple state machine that sends and receives messages
//! between the two sides.  Each side has a sequence id (SID) that is
//! incremented for each message sent.  The other side must acknowledge
//! the message by sending back the same SID.
//!
//! There are few error cases when new messages are queued until the
//! error is resolved.
//! 1. If a message is received with an invalid SID, a retransmit is sent for
//!    the expected SID.
//! 2. If a message cannot be deserialized, a retransmit is sent for the
//!    expected SID.
//! 3. A Retransmit message is received. This means the other side is on error.
//!    All messages sent from the retransmit on are queued again, in the order in
//!    which they were sent, and the first of them is sent at once. Then the queued
//!    messages are sent one by one after receiving an ACK; behind one that is never
//!    acknowledged, the next goes in the next turn. Where there is nothing to send
//!    again, a ping is the answer.
//!
//! Those cases can occur simultaneously on both sides. What is queued waits as long as
//! this side is on error.
//!
//! At the start, when neither side may know the ids of the other, a side that has
//! nothing else to send sends a ping. It does not do so while it is on error.
use vstd::prelude::*;

use crate::event_queue::EventQueue;
use crate::serde::{deserialize, serialize, Event, Message};
use crate::sid::{CircBuf, Sid};

verus! {

/// A call that the hardware gets.
pub enum HwCall {
    /// A message is to be sent
    QueueSend(Message),
    /// The error state is set
    SetErrorState(bool),
    /// The commands for the leds are taken
    TakeCommands,
}

/// Hardware trait for continuous communication mode
///
/// The hardware layer maintains continuous communication independently: it takes
/// the messages that are to be sent, and is told of errors.
pub trait Hardware {
    /// The messages that wait to be sent, oldest first.
    spec fn wire(&self) -> Seq<Message>;

    /// The error state that was set last.
    spec fn error_state(&self) -> bool;

    /// The calls so far, oldest first.
    spec fn calls(&self) -> Seq<HwCall>;

    /// The hardware is in the state that the calls have brought it to.
    spec fn wf(&self) -> bool;

    /// Queue a message to be sent (non-blocking)
    fn queue_send(&mut self, msg: Message)
        ensures
            final(self).wire() == old(self).wire().push(msg),
            final(self).error_state() == old(self).error_state(),
            final(self).calls() == old(self).calls().push(HwCall::QueueSend(msg)),
            old(self).wf() ==> final(self).wf(),
    ;

    /// Set error state
    fn set_error_state(&mut self, error: bool)
        ensures
            final(self).error_state() == error,
            final(self).wire() == old(self).wire(),
            final(self).calls() == old(self).calls().push(HwCall::SetErrorState(error)),
            old(self).wf() ==> final(self).wf(),
    ;
}

/// The state of one side of the connection, together with what its hardware was told.
#[verifier::ext_equal]
pub struct Link {
    /// The messages that wait for an acknowledgment, one slot per sequence id.
    pub sent: Seq<Option<Message>>,
    /// The events that wait to be sent; the last one is the next to go.
    pub queued: Seq<Event>,
    /// The id of the next message to be received; unknown at the start.
    pub next_rx: Option<Sid>,
    /// The id of the next message to be sent.
    pub next_tx: Sid,
    /// Whether nothing has been sent yet.
    pub need_ping: bool,
    /// The last message that was received in its turn.
    pub last_msg: Option<Message>,
    /// Whether this side asked for a retransmit and waits for it.
    pub on_error: bool,
    /// Whether the event that was last taken from those that wait has yet to be
    /// acknowledged.
    pub awaiting_ack: bool,
    /// The messages handed to the hardware, oldest first.
    pub wire: Seq<Message>,
    /// The error state that the hardware was told.
    pub error_state: bool,
    /// The calls that the hardware got, oldest first.
    pub calls: Seq<HwCall>,
}

/// Whether the message of an event is kept until it is acknowledged.
pub open spec fn is_kept(event: Event) -> bool {
    !(event is Retransmit) && !(event is Noop)
}

/// Whether the other side acknowledges the message of an event.
pub open spec fn is_acknowledged(event: Event) -> bool {
    !(event is Noop) && !(event is Ack) && !(event is Retransmit)
}

/// What makes the state of a side consistent: ids are valid, each message that is
/// kept is the one of its slot, and whatever waits can be sent.
pub open spec fn link_wf(s: Link) -> bool {
    &&& s.sent.len() == 32
    &&& s.next_tx.valid()
    &&& s.next_rx matches Some(rx) ==> rx.valid()
    &&& forall|i: int|
        0 <= i < 32 ==> (#[trigger] s.sent[i] matches Some(msg) ==> sent_ok(msg, i))
    &&& s.queued.len() <= 64
    &&& forall|i: int| 0 <= i < s.queued.len() ==> crate::serde::serializable(#[trigger] s.queued[i])
}

/// Whether the message is that of an event that is kept, under the id `i`.
pub open spec fn sent_ok(msg: Message, i: int) -> bool {
    exists|event: Event|
        {
            &&& crate::serde::serializable(event)
            &&& is_kept(event)
            &&& msg == #[trigger] crate::serde::encode(event, Sid { v: i as u8 })
        }
}

/// The event of an intact message.
pub open spec fn event_of(msg: Message) -> Event {
    match crate::serde::decode(msg) {
        Some((event, _)) => event,
        None => Event::Noop,
    }
}

/// The state at the start: nothing is known of the other side.
pub open spec fn link_new(wire: Seq<Message>, error_state: bool, calls: Seq<HwCall>) -> Link {
    Link {
        sent: Seq::new(32, |i: int| None::<Message>),
        queued: Seq::empty(),
        next_rx: None,
        next_tx: Sid { v: 0 },
        need_ping: true,
        last_msg: None,
        on_error: false,
        awaiting_ack: false,
        wire,
        error_state,
        calls,
    }
}

/// Send an event under the next id; it is kept unless it is a retransmit or a noop,
/// which do not use up the id.
pub open spec fn link_send(s: Link, event: Event) -> Link {
    let msg = crate::serde::encode(event, s.next_tx);
    let told = Link {
        need_ping: false,
        wire: s.wire.push(msg),
        calls: s.calls.push(HwCall::QueueSend(msg)),
        ..s
    };
    if is_kept(event) {
        Link {
            sent: s.sent.update(s.next_tx.v as int, Some(msg)),
            next_tx: s.next_tx.succ(),
            ..told
        }
    } else {
        told
    }
}

/// Send the event that has waited longest, if any. The ones behind it wait for its
/// acknowledgment, if it gets one.
pub open spec fn link_send_queued(s: Link) -> Link {
    if s.queued.len() == 0 {
        s
    } else {
        let event = s.queued.last();
        link_send(
            Link { queued: s.queued.drop_last(), awaiting_ack: is_acknowledged(event), ..s },
            event,
        )
    }
}

/// The start of an iteration: the event that has waited longest is sent, unless there is an
/// error or the one before it has yet to be acknowledged.
pub open spec fn link_start(s: Link) -> Link {
    if s.on_error || s.awaiting_ack {
        s
    } else {
        link_send_queued(s)
    }
}

/// Send an event, or let it wait behind the others while there is an error or while
/// others wait. An event that finds the queue full is lost.
pub open spec fn link_queue(s: Link, event: Event) -> Link {
    if s.on_error || s.queued.len() > 0 {
        if s.queued.len() < 64 {
            Link { queued: seq![event] + s.queued, ..s }
        } else {
            s
        }
    } else {
        link_send(s, event)
    }
}

/// The hardware is told of an error.
pub open spec fn link_on_error(s: Link) -> Link {
    Link {
        on_error: true,
        error_state: true,
        calls: s.calls.push(HwCall::SetErrorState(true)),
        ..s
    }
}

/// Ask the other side to send again, starting with the message of the given id. The
/// hardware is told of the error first.
pub open spec fn link_ask_again(s: Link, sid: Sid) -> Link {
    link_send(link_on_error(s), Event::Retransmit(sid))
}

/// The events that are to be sent again when the other side asks for `from`: those
/// that are kept, in the order of their ids starting at `from`, without the pings.
pub open spec fn resent_events(sent: Seq<Option<Message>>, from: Sid) -> Seq<Event> {
    resent_upto(sent, from, 32)
}

/// The part of `resent_events` that comes from the first `n` ids.
pub open spec fn resent_upto(sent: Seq<Option<Message>>, from: Sid, n: int) -> Seq<Event> {
    crate::sid::sid_range(from, from).take(n).filter(|sid: Sid| is_resent(sent, sid)).map_values(
        |sid: Sid| event_of(sent[sid.v as int]->0),
    )
}

/// Whether the message of an id is to be sent again.
pub open spec fn is_resent(sent: Seq<Option<Message>>, sid: Sid) -> bool {
    sent[sid.v as int] matches Some(msg) && !(event_of(msg) is Ping)
}

/// Go back to the id that the other side asks for: what is kept waits to be sent
/// again, before everything else, and the first event goes at once. Where there is
/// nothing to send, a ping is sent.
pub open spec fn link_retransmit(s: Link, sid: Sid) -> Link {
    let queued = s.queued + resent_events(s.sent, sid).reverse();
    link_send_queued(
        Link {
            next_tx: sid,
            sent: Seq::new(32, |i: int| None::<Message>),
            queued: if queued.len() == 0 {
                seq![Event::Ping]
            } else {
                queued
            },
            ..s
        },
    )
}

/// What a message that comes in its turn does: an ack frees the slot of its id and lets the
/// next waiting event go, and everything but an ack and a noop is acknowledged.
pub open spec fn link_take_event(s: Link, msg: Message, event: Event, sid: Sid) -> Link {
    let after = match event {
        Event::Noop => s,
        Event::Retransmit(_) => s,
        Event::Ack(ack) => Link {
            sent: s.sent.update(ack.v as int, None),
            awaiting_ack: false,
            ..s
        },
        _ => link_send(s, Event::Ack(sid)),
    };
    Link { last_msg: Some(msg), ..after }
}

/// Whether an event is of concern to those above the protocol.
pub open spec fn is_for_caller(event: Event) -> bool {
    match event {
        Event::Noop | Event::Ping | Event::Retransmit(_) | Event::Ack(_) => false,
        _ => true,
    }
}

/// Whether a message with this id comes in its turn. Any does at the start.
pub open spec fn in_turn(s: Link, sid: Sid) -> bool {
    s.next_rx is None || s.next_rx == Some(sid)
}

/// Whether a message is corrupt or out of turn, so that the expected one is asked for. The
/// message that was taken last is not, when it comes a second time.
pub open spec fn is_asked_again(s: Link, msg: Message) -> bool {
    match crate::serde::decode(msg) {
        Some((Event::Retransmit(_), _)) => false,
        Some((_, sid)) => !in_turn(s, sid) && s.last_msg != Some(msg),
        None => s.next_rx is Some,
    }
}

/// The state after a message was received.
pub open spec fn link_receive(s: Link, msg: Message) -> Link {
    match crate::serde::decode(msg) {
        Some((Event::Retransmit(from), _)) => link_retransmit(s, from),
        Some((event, sid)) => if in_turn(s, sid) {
            let taken = link_take_event(s, msg, event, sid);
            Link {
                next_rx: Some(sid.succ()),
                on_error: s.on_error && s.next_rx is None,
                ..taken
            }
        } else if s.last_msg == Some(msg) {
            s
        } else {
            link_ask_again(s, s.next_rx->0)
        },
        None => match s.next_rx {
            Some(expected) => link_ask_again(s, expected),
            None => s,
        },
    }
}

/// The event that a received message hands to those above the protocol.
pub open spec fn link_delivers(s: Link, msg: Message) -> Option<Event> {
    match crate::serde::decode(msg) {
        Some((event, sid)) => if is_for_caller(event) && in_turn(s, sid) {
            Some(event)
        } else {
            None
        },
        None => None,
    }
}

/// Whether a message can be handled: it names no id outside of the range, and if it
/// asks for a retransmit, what is to be sent again finds room in the queue.
pub open spec fn link_accepts(s: Link, msg: Message) -> bool {
    match crate::serde::decode(msg) {
        Some((Event::Retransmit(from), _)) => from.valid() && s.queued.len() + resent_events(
            s.sent,
            from,
        ).len() <= 64,
        Some((Event::Ack(ack), sid)) => in_turn(s, sid) ==> ack.valid(),
        _ => true,
    }
}

/// Send a ping if nothing has been sent yet, unless there is an error.
pub open spec fn link_ping(s: Link) -> Link {
    if s.need_ping && !s.on_error {
        link_send(s, Event::Ping)
    } else {
        s
    }
}

/// One iteration: a waiting event is sent if it may go, a message is received if there is
/// one, and a ping is sent if it is needed.
pub open spec fn link_iterate(s: Link, received: Option<Message>) -> Link {
    let started = link_start(s);
    link_ping(
        match received {
            Some(msg) => link_receive(started, msg),
            None => started,
        },
    )
}

/// The state after a number of messages were received, one per iteration.
pub open spec fn link_after(s: Link, msgs: Seq<Message>, n: int) -> Link
    decreases n,
{
    if n <= 0 {
        s
    } else {
        link_iterate(link_after(s, msgs, n - 1), Some(msgs[n - 1]))
    }
}

/// The event that the message at an index brings.
pub open spec fn link_event_at(s: Link, msgs: Seq<Message>, k: int) -> Option<Event> {
    link_delivers(link_start(link_after(s, msgs, k)), msgs[k])
}

/// Whether all of the messages can be handled, one after the other.
pub open spec fn link_accepts_all(s: Link, msgs: Seq<Message>) -> bool {
    forall|k: int|
        0 <= k < msgs.len() ==> link_accepts(
            link_start(#[trigger] link_after(s, msgs, k)),
            msgs[k],
        )
}

/// One side of the connection between the halves.
pub struct SideProtocol<W: Hardware> {
    /// Name
    pub name: &'static str,
    /// Events sent to the other side,
    /// waiting for an ACK
    pub sent: CircBuf<Message>,
    /// Events queued to be sent when retransmit is complete
    pub queued_events: EventQueue,
    /// Expecting sid to be received
    /// None on startup
    pub next_rx_sid: Option<Sid>,
    /// Next sequence id to send
    pub next_tx_sid: Sid,
    /// Need to send a ping
    pub need_ping: bool,
    /// Last message received
    pub last_msg: Option<Message>,
    /// Retransmit on going: this side asked for a retransmit
    pub retransmit_on_going: bool,
    /// Waiting for an ACK before the next of the queued events is sent
    pub awaiting_ack: bool,
    /// Hardware
    pub hw: W,
}

impl<W: Hardware> View for SideProtocol<W> {
    type V = Link;

    open spec fn view(&self) -> Link {
        Link {
            sent: self.sent@,
            queued: self.queued_events@,
            next_rx: self.next_rx_sid,
            next_tx: self.next_tx_sid,
            need_ping: self.need_ping,
            last_msg: self.last_msg,
            on_error: self.retransmit_on_going,
            awaiting_ack: self.awaiting_ack,
            wire: self.hw.wire(),
            error_state: self.hw.error_state(),
            calls: self.hw.calls(),
        }
    }
}

impl<W: Hardware> SideProtocol<W> {
    /// The state is consistent.
    pub open spec fn wf(self) -> bool {
        &&& self.sent.wf()
        &&& self.hw.wf()
        &&& link_wf(self@)
    }

    /// Create a new side protocol
    pub fn new(hw: W, name: &'static str) -> (protocol: Self)
        requires
            hw.wf(),
        ensures
            protocol.wf(),
            protocol.hw == hw,
            protocol.name == name,
            protocol@ == link_new(hw.wire(), hw.error_state(), hw.calls()),
    {
        SideProtocol {
            name,
            sent: CircBuf::new(),
            queued_events: EventQueue::new(),
            next_rx_sid: None,
            next_tx_sid: Sid::default(),
            hw,
            retransmit_on_going: false,
            awaiting_ack: false,
            need_ping: true,
            last_msg: None,
        }
    }

    /// Send an event
    pub fn send_event(&mut self, event: Event)
        requires
            old(self).wf(),
            crate::serde::serializable(event),
        ensures
            final(self).wf(),
            final(self).name == old(self).name,
            final(self)@ == link_send(old(self)@, event),
    {
        self.need_ping = false;
        let msg: Message = match serialize(event, self.next_tx_sid) {
            Ok(msg) => msg,
            Err(_) => {
                assert(false);
                return;
            },
        };
        self.hw.queue_send(msg);
        // Don't store the message if it's a retransmit
        if !event.is_retransmit() && !event.is_noop() {
            self.sent.insert(self.next_tx_sid, msg);
            proof {
                crate::sid::law_slot_per_sid(self.sent);
            }
            self.next_tx_sid.next();
        }
        proof {
            lemma_send_wf(old(self)@, event);
        }
        assert(self@ =~= link_send(old(self)@, event));
    }

    /// Check if we're in error mode
    pub fn is_on_error(&self) -> (b: bool)
        ensures
            b == self@.on_error,
    {
        self.retransmit_on_going
    }

    /// Queue an event to be sent
    pub fn queue_event(&mut self, event: Event)
        requires
            old(self).wf(),
            crate::serde::serializable(event),
        ensures
            final(self).wf(),
            final(self).name == old(self).name,
            final(self)@ == link_queue(old(self)@, event),
    {
        if self.is_on_error() || !self.queued_events.is_empty() {
            // If we're in error mode, queue the event instead of sending it immediately
            let _ = self.queued_events.push_front(event);
            assert(self@ =~= link_queue(old(self)@, event));
        } else {
            // If we're not in error mode, send the event immediately
            self.send_event(event);
        }
    }

    /// Send a Retransmit event
    fn send_retransmit(&mut self, sid: Sid)
        requires
            old(self).wf(),
        ensures
            final(self).wf(),
            final(self).name == old(self).name,
            final(self)@ == link_ask_again(old(self)@, sid),
    {
        self.retransmit_on_going = true;
        // Mark as on error
        let on_error = self.is_on_error();
        self.hw.set_error_state(on_error);
        assert(self@ =~= link_on_error(old(self)@));
        self.send_event(Event::Retransmit(sid));
    }

    /// On invalid sequence id
    fn on_invalid_sid(&mut self, msg: Message, expected: Sid)
        requires
            old(self).wf(),
        ensures
            final(self).wf(),
            final(self).name == old(self).name,
            final(self)@ == if old(self)@.last_msg == Some(msg) {
                old(self)@
            } else {
                link_ask_again(old(self)@, expected)
            },
    {
        if let Some(last_msg) = self.last_msg {
            if last_msg == msg {
                return;
            }
        }
        self.send_retransmit(expected);
    }

    /// Send an ACK for the given sequence id
    fn acknowledge(&mut self, sid: Sid)
        requires
            old(self).wf(),
        ensures
            final(self).wf(),
            final(self).name == old(self).name,
            final(self)@ == link_send(old(self)@, Event::Ack(sid)),
    {
        self.send_event(Event::Ack(sid));
    }

    /// Received an ACK for the given sequence id
    /// This means the other side has received this event
    fn on_ack(&mut self, sid: Sid)
        requires
            old(self).wf(),
            sid.valid(),
        ensures
            final(self).wf(),
            final(self).name == old(self).name,
            final(self)@ == (Link {
                sent: old(self)@.sent.update(sid.v as int, None),
                awaiting_ack: false,
                ..old(self)@
            }),
    {
        self.sent.remove(sid);
        self.awaiting_ack = false;
        assert(self@ =~= (Link {
            sent: old(self)@.sent.update(sid.v as int, None),
            awaiting_ack: false,
            ..old(self)@
        }));
    }

    /// The events that are to be sent again from the given id on, in the order of
    /// their ids
    fn events_to_resend(&self, from: Sid) -> (events: Vec<Event>)
        requires
            self.wf(),
            from.valid(),
        ensures
            events@ == resent_events(self@.sent, from),
    {
        let mut events: Vec<Event> = Vec::new();
        let mut it = from.iter(from);
        let ghost all = crate::sid::sid_range(from, from);
        let mut n: usize = 0;
        proof {
            crate::sid::law_full_circle(from, from);
            assert(all.take(0) =~= Seq::<Sid>::empty());
            assert(events@ =~= resent_upto(self@.sent, from, 0));
            assert(all.skip(0) =~= all);
        }
        while n < 32
            invariant
                0 <= n <= 32,
                self.wf(),
                from.valid(),
                all == crate::sid::sid_range(from, from),
                all.len() == 32,
                it.wf(),
                it.remaining() == all.skip(n as int),
                events@ == resent_upto(self@.sent, from, n as int),
            decreases 32 - n,
        {
            let next = it.next();
            assert(all.skip(n as int).drop_first() =~= all.skip(n + 1));
            let sid = match next {
                Some(sid) => sid,
                None => {
                    assert(false);
                    return events;
                },
            };
            assert(sid == all[n as int]);
            let slot = self.sent.get(sid);
            proof {
                lemma_resent_step(self@.sent, from, n as int);
            }
            if let Some(msg) = slot {
                proof {
                    lemma_sent_decodes(self@, sid.v as int);
                }
                if let Ok((event, _)) = deserialize(msg) {
                    if !event.is_ping() {
                        events.push(event);
                    }
                }
            }
            n = n + 1;
        }
        assert(all.take(32) =~= all);
        events
    }

    /// On Retransmit event
    /// The other side is asking for a retransmit
    /// Send the event again with the same sequence id
    fn on_retransmit(&mut self, sid: Sid)
        requires
            old(self).wf(),
            sid.valid(),
            old(self)@.queued.len() + resent_events(old(self)@.sent, sid).len() <= 64,
        ensures
            final(self).wf(),
            final(self).name == old(self).name,
            final(self)@ == link_retransmit(old(self)@, sid),
    {
        let events = self.events_to_resend(sid);
        proof {
            lemma_resent(old(self)@, sid);
        }
        self.next_tx_sid = sid;
        // Need to requeue events sent after the retransmit
        // If we don't do this, the other side will not receive them
        // and will be out of sync
        self.sent = CircBuf::new();
        let mut n: usize = events.len();
        proof {
            assert(old(self)@.queued + events@.skip(n as int).reverse() =~= old(self)@.queued);
        }
        while n > 0
            invariant
                0 <= n <= events@.len(),
                self.wf(),
                old(self)@.queued.len() + events@.len() <= 64,
                forall|i: int|
                    0 <= i < events@.len() ==> crate::serde::serializable(#[trigger] events@[i]),
                self.name == old(self).name,
                self@ == (Link {
                    next_tx: sid,
                    sent: Seq::new(32, |i: int| None::<Message>),
                    queued: old(self)@.queued + events@.skip(n as int).reverse(),
                    ..old(self)@
                }),
            decreases n,
        {
            n = n - 1;
            let _ = self.queued_events.push_back(events[n]);
            assert(events@.skip(n as int).reverse() =~= events@.skip(n + 1).reverse().push(
                events@[n as int],
            ));
            assert(self@.queued =~= old(self)@.queued + events@.skip(n as int).reverse());
        }
        assert(events@.skip(0) =~= events@);
        if self.queued_events.is_empty() {
            // Force a ping to be sent
            let _ = self.queued_events.push_back(Event::Ping);
            assert(self@.queued =~= seq![Event::Ping]);
        }
        self.send_queued();
    }

    /// Send the next of the queued events, if there is one
    fn send_queued(&mut self)
        requires
            old(self).wf(),
        ensures
            final(self).wf(),
            final(self).name == old(self).name,
            final(self)@ == link_send_queued(old(self)@),
    {
        if let Some(event) = self.queued_events.pop_back() {
            self.awaiting_ack = event.needs_ack();
            assert(self@ =~= (Link {
                queued: old(self)@.queued.drop_last(),
                awaiting_ack: is_acknowledged(event),
                ..old(self)@
            }));
            self.send_event(event);
        }
    }

    /// Send the next of the queued events, if there is one and it may go: not while this
    /// side is on error, nor before the one sent last was acknowledged
    pub fn send_next_queued(&mut self)
        requires
            old(self).wf(),
        ensures
            final(self).wf(),
            final(self).name == old(self).name,
            final(self)@ == link_start(old(self)@),
    {
        if !self.is_on_error() && !self.awaiting_ack {
            self.send_queued();
        }
    }

    /// On Ok event
    fn handle_received_event(&mut self, msg: Message, event: Event, sid: Sid) -> (to_process:
        Option<Event>)
        requires
            old(self).wf(),
            event matches Event::Ack(ack) ==> ack.valid(),
        ensures
            final(self).wf(),
            final(self).name == old(self).name,
            final(self)@ == link_take_event(old(self)@, msg, event, sid),
            to_process == if is_for_caller(event) {
                Some(event)
            } else {
                None
            },
    {
        let mut to_process = None;
        match event {
            Event::Noop => {},
            Event::Ping => {
                // respond with a ack
                self.acknowledge(sid);
            },
            Event::Retransmit(_) => {},
            Event::Ack(ack) => {
                self.on_ack(ack);
            },
            _ => {
                self.acknowledge(sid);
                to_process = Some(event);
            },
        }
        // Store the last message for duplicate detection
        self.last_msg = Some(msg);
        assert(self@ =~= link_take_event(old(self)@, msg, event, sid));
        to_process
    }

    /// Whether a message can be handled in the present state
    pub fn accepts(&self, msg: Message) -> (b: bool)
        requires
            self.wf(),
        ensures
            b == link_accepts(self@, msg),
    {
        match deserialize(msg) {
            Ok((Event::Retransmit(from), _)) => {
                if from.v > crate::sid::SID_MAX_U8 {
                    false
                } else {
                    let events = self.events_to_resend(from);
                    let queued: usize = self.queued_events.len();
                    queued <= 64 && events.len() <= 64 - queued
                }
            },
            Ok((Event::Ack(ack), sid)) => match self.next_rx_sid {
                Some(expected) if expected != sid => true,
                _ => ack.v <= crate::sid::SID_MAX_U8,
            },
            _ => true,
        }
    }

    /// The event that a message would bring in the present state
    pub fn event_of_message(&self, msg: Message) -> (event: Option<Event>)
        ensures
            event == link_delivers(self@, msg),
    {
        match deserialize(msg) {
            Ok((event, sid)) => {
                let in_turn = match self.next_rx_sid {
                    Some(expected) => expected == sid,
                    None => true,
                };
                let for_caller = match event {
                    Event::Noop | Event::Ping | Event::Retransmit(_) | Event::Ack(_) => false,
                    _ => true,
                };
                if for_caller && in_turn {
                    Some(event)
                } else {
                    None
                }
            },
            Err(_) => None,
        }
    }

    /// Send a ping if nothing has been sent yet, unless there is an error
    pub fn ping_if_needed(&mut self)
        requires
            old(self).wf(),
        ensures
            final(self).wf(),
            final(self).name == old(self).name,
            final(self)@ == link_ping(old(self)@),
    {
        if self.need_ping && !self.is_on_error() {
            self.send_event(Event::Ping);
        }
    }

    /// Run one iteration in continuous mode: send a queued event, if any may go, process
    /// the message that was received in the meantime, if any, and see to it that the other
    /// side hears from this one
    /// Returns event to process if received
    pub fn run_once_continuous(&mut self, received: Option<Message>) -> (r: Option<Event>)
        requires
            old(self).wf(),
            received matches Some(msg) ==> link_accepts(link_start(old(self)@), msg),
        ensures
            final(self).wf(),
            final(self).name == old(self).name,
            final(self)@ == link_iterate(old(self)@, received),
            r == match received {
                Some(msg) => link_delivers(link_start(old(self)@), msg),
                None => None,
            },
    {
        self.send_next_queued();
        let r = match received {
            Some(msg) => self.process_received_message(msg),
            None => None,
        };
        self.ping_if_needed();
        r
    }

    /// Receive messages, until one of them brings an event
    /// Returns the event, if any, and the number of messages that were taken
    #[verifier::rlimit(60)]
    #[verifier::spinoff_prover]
    pub fn receive(&mut self, available: &[Message]) -> (r: (Option<Event>, usize))
        requires
            old(self).wf(),
            link_accepts_all(old(self)@, available@),
        ensures
            final(self).wf(),
            final(self).name == old(self).name,
            r.1 <= available@.len(),
            final(self)@ == link_after(old(self)@, available@, r.1 as int),
            forall|k: int|
                0 <= k < r.1 - 1 ==> #[trigger] link_event_at(old(self)@, available@, k) is None,
            r.0 is Some ==> r.1 > 0 && r.0 == link_event_at(old(self)@, available@, r.1 - 1),
            r.0 is None ==> r.1 == available@.len() && (r.1 > 0 ==> link_event_at(
                old(self)@,
                available@,
                r.1 - 1,
            ) is None),
    {
        let mut n: usize = 0;
        while n < available.len()
            invariant
                n <= available@.len(),
                self.wf(),
                self.name == old(self).name,
                link_accepts_all(old(self)@, available@),
                self@ == link_after(old(self)@, available@, n as int),
                forall|k: int|
                    0 <= k < n ==> #[trigger] link_event_at(old(self)@, available@, k) is None,
            decreases available@.len() - n,
        {
            let ghost before = self@;
            let msg: Message = available[n];
            assert(link_accepts(link_start(before), msg));
            let event = self.run_once_continuous(Some(msg));
            assert(event == link_event_at(old(self)@, available@, n as int));
            n = n + 1;
            assert(self@ == link_after(old(self)@, available@, n as int));
            if event.is_some() {
                return (event, n);
            }
        }
        (None, n)
    }

    /// Process a received message and return event if needed
    pub fn process_received_message(&mut self, msg: Message) -> (r: Option<Event>)
        requires
            old(self).wf(),
            link_accepts(old(self)@, msg),
        ensures
            final(self).wf(),
            final(self).name == old(self).name,
            final(self)@ == link_receive(old(self)@, msg),
            r == link_delivers(old(self)@, msg),
    {
        proof {
            crate::serde::law_decoded_sid_valid(msg);
        }
        match deserialize(msg) {
            Ok((event, sid)) => {
                if let Event::Retransmit(to_retransmit) = event {
                    self.on_retransmit(to_retransmit);
                    None
                } else {
                    match self.next_rx_sid {
                        Some(expected) if expected == sid => {
                            // We received the expected message
                            let r = self.handle_received_event(msg, event, sid);
                            let mut next = expected;
                            next.next();
                            self.next_rx_sid = Some(next);
                            self.retransmit_on_going = false;
                            assert(self@ =~= link_receive(old(self)@, msg));
                            r
                        },
                        None => {
                            // No expected message, this is the first message
                            let mut next = sid;
                            next.next();
                            self.next_rx_sid = Some(next);
                            let r = self.handle_received_event(msg, event, sid);
                            assert(self@ =~= link_receive(old(self)@, msg));
                            r
                        },
                        Some(expected) => {
                            self.on_invalid_sid(msg, expected);
                            None
                        },
                    }
                }
            },
            Err(_) => {
                if let Some(next) = self.next_rx_sid {
                    self.send_retransmit(next);
                }
                None
            },
        }
    }
}

proof fn lemma_send_wf(s: Link, event: Event)
    requires
        link_wf(s),
        crate::serde::serializable(event),
    ensures
        link_wf(link_send(s, event)),
{
    let after = link_send(s, event);
    assert forall|i: int| 0 <= i < 32 implies (#[trigger] after.sent[i] matches Some(msg) ==> sent_ok(
        msg,
        i,
    )) by {
        if is_kept(event) && i == s.next_tx.v {
            assert(after.sent[i] == Some(crate::serde::encode(event, Sid { v: i as u8 })));
        } else {
            assert(after.sent[i] == s.sent[i]);
        }
    }
}

proof fn lemma_sent_decodes(s: Link, i: int)
    requires
        link_wf(s),
        0 <= i < 32,
        s.sent[i] is Some,
    ensures
        crate::serde::decode(s.sent[i]->0) == Some((event_of(s.sent[i]->0), Sid { v: i as u8 })),
        crate::serde::serializable(event_of(s.sent[i]->0)),
        is_kept(event_of(s.sent[i]->0)),
        s.sent[i]->0 == crate::serde::encode(event_of(s.sent[i]->0), Sid { v: i as u8 }),
{
    let msg = s.sent[i]->0;
    assert(sent_ok(msg, i));
    let event = choose|event: Event|
        {
            &&& crate::serde::serializable(event)
            &&& is_kept(event)
            &&& msg == #[trigger] crate::serde::encode(event, Sid { v: i as u8 })
        };
    crate::serde::law_decode_encode(event, Sid { v: i as u8 });
}

proof fn lemma_resent_step(sent: Seq<Option<Message>>, from: Sid, n: int)
    requires
        from.valid(),
        0 <= n < 32,
    ensures
        resent_upto(sent, from, n + 1) == {
            let sid = crate::sid::sid_range(from, from)[n];
            if is_resent(sent, sid) {
                resent_upto(sent, from, n).push(event_of(sent[sid.v as int]->0))
            } else {
                resent_upto(sent, from, n)
            }
        },
{
    let all = crate::sid::sid_range(from, from);
    let longer = all.take(n + 1);
    let f = |sid: Sid| event_of(sent[sid.v as int]->0);
    assert(longer.drop_last() =~= all.take(n));
    assert(longer.last() == all[n]);
    reveal_with_fuel(Seq::filter, 2);
    let kept = all.take(n).filter(|sid: Sid| is_resent(sent, sid));
    assert(kept.push(all[n]).map_values(f) =~= kept.map_values(f).push(f(all[n])));
}

proof fn lemma_resent(s: Link, from: Sid)
    requires
        link_wf(s),
        from.valid(),
    ensures
        forall|i: int|
            0 <= i < resent_events(s.sent, from).len() ==> crate::serde::serializable(
                #[trigger] resent_events(s.sent, from)[i],
            ) && is_kept(resent_events(s.sent, from)[i]),
{
    lemma_resent_upto(s, from, 32);
}

proof fn lemma_resent_upto(s: Link, from: Sid, n: int)
    requires
        link_wf(s),
        from.valid(),
        0 <= n <= 32,
    ensures
        forall|i: int|
            0 <= i < resent_upto(s.sent, from, n).len() ==> crate::serde::serializable(
                #[trigger] resent_upto(s.sent, from, n)[i],
            ) && is_kept(resent_upto(s.sent, from, n)[i]),
    decreases n,
{
    if n == 0 {
        assert(crate::sid::sid_range(from, from).take(0) =~= Seq::<Sid>::empty());
        reveal_with_fuel(Seq::filter, 1);
    } else {
        lemma_resent_upto(s, from, n - 1);
        lemma_resent_step(s.sent, from, n - 1);
        let sid = crate::sid::sid_range(from, from)[n - 1];
        if is_resent(s.sent, sid) {
            lemma_sent_decodes(s, sid.v as int);
        }
    }
}

proof fn lemma_resent_prefix(sent: Seq<Option<Message>>, from: Sid, n: int, m: int)
    requires
        from.valid(),
        0 <= n <= m <= 32,
        forall|k: int| 0 <= k < n ==> is_resent(sent, #[trigger] crate::sid::sid_plus(from, k)),
    ensures
        resent_upto(sent, from, m).len() >= n,
        forall|k: int|
            0 <= k < n ==> #[trigger] resent_upto(sent, from, m)[k] == event_of(
                sent[crate::sid::sid_plus(from, k).v as int]->0,
            ),
        m == n ==> resent_upto(sent, from, m).len() == n,
    decreases m,
{
    if m == 0 {
        assert(crate::sid::sid_range(from, from).take(0) =~= Seq::<Sid>::empty());
        reveal_with_fuel(Seq::filter, 1);
    } else {
        lemma_resent_step(sent, from, m - 1);
        assert(crate::sid::sid_range(from, from)[m - 1] == crate::sid::sid_plus(from, m - 1));
        if m > n {
            lemma_resent_prefix(sent, from, n, m - 1);
        } else {
            lemma_resent_prefix(sent, from, n - 1, m - 1);
            assert(is_resent(sent, crate::sid::sid_plus(from, m - 1)));
        }
    }
}

proof fn lemma_resent_len(sent: Seq<Option<Message>>, from: Sid, n: int)
    requires
        from.valid(),
        0 <= n <= 32,
    ensures
        resent_upto(sent, from, n).len() <= n,
    decreases n,
{
    if n == 0 {
        assert(crate::sid::sid_range(from, from).take(0) =~= Seq::<Sid>::empty());
        reveal_with_fuel(Seq::filter, 1);
    } else {
        lemma_resent_step(sent, from, n - 1);
        lemma_resent_len(sent, from, n - 1);
    }
}

/// A message goes out under the next id, reads back as the event that was sent, and
/// is kept in the slot of its id.
pub proof fn law_send_under_next_id(s: Link, event: Event)
    requires
        link_wf(s),
        crate::serde::serializable(event),
    ensures
        link_send(s, event).wire.len() == s.wire.len() + 1,
        crate::serde::decode(link_send(s, event).wire.last()) == Some((event, s.next_tx)),
        is_kept(event) ==> link_send(s, event).sent[s.next_tx.v as int] == Some(
            link_send(s, event).wire.last(),
        ) && link_send(s, event).next_tx == s.next_tx.succ(),
        !is_kept(event) ==> link_send(s, event).sent == s.sent && link_send(s, event).next_tx
            == s.next_tx,
{
    crate::serde::law_decode_encode(event, s.next_tx);
}

/// An event is handed over only in its turn, and the next one to be handed over has
/// the id that follows.
pub proof fn law_delivered_in_order(s: Link, first: Message, second: Message)
    requires
        link_wf(s),
        link_delivers(s, first) is Some,
        link_delivers(link_receive(s, first), second) is Some,
    ensures
        crate::serde::decode(first) matches Some((event, sid)) && link_delivers(s, first) == Some(
            event,
        ) && (s.next_rx is None || s.next_rx == Some(sid)) && (crate::serde::decode(second) matches Some(
            (_, next),
        ) && next == sid.succ()),
{
}

/// A message that comes a second time changes nothing and is not handed over again.
pub proof fn law_duplicate_is_ignored(s: Link, msg: Message)
    requires
        link_wf(s),
        link_delivers(s, msg) is Some,
    ensures
        link_delivers(link_receive(s, msg), msg) is None,
        link_receive(link_receive(s, msg), msg) == link_receive(s, msg),
{
    crate::serde::law_decoded_sid_valid(msg);
}

/// Whatever needs an acknowledgment and comes in its turn is answered by one message,
/// which acknowledges its id; an error that was going on is over, once the ids are known.
pub proof fn law_in_turn_is_acknowledged(s: Link, msg: Message, event: Event, sid: Sid)
    requires
        link_wf(s),
        crate::serde::decode(msg) == Some((event, sid)),
        in_turn(s, sid),
        is_acknowledged(event),
    ensures
        link_receive(s, msg).wire.len() == s.wire.len() + 1,
        crate::serde::decode(link_receive(s, msg).wire.last()) == Some(
            (Event::Ack(sid), s.next_tx),
        ),
        link_receive(s, msg).next_rx == Some(sid.succ()),
        s.next_rx is Some ==> !link_receive(s, msg).on_error,
        link_delivers(s, msg) == if event is Ping {
            None
        } else {
            Some(event)
        },
{
    crate::serde::law_decode_encode(Event::Ack(sid), s.next_tx);
}

/// A message that is corrupt or out of turn is not handed over: it is answered by a
/// request for the expected id, new events wait from then on, and no id is used up.
pub proof fn law_bad_message_is_asked_again(s: Link, msg: Message, expected: Sid)
    requires
        link_wf(s),
        s.next_rx == Some(expected),
        s.last_msg != Some(msg),
        crate::serde::decode(msg) is None || (crate::serde::decode(msg) matches Some((event, sid))
            && sid != expected && !(event is Retransmit)),
    ensures
        link_delivers(s, msg) is None,
        link_receive(s, msg).wire.len() == s.wire.len() + 1,
        crate::serde::decode(link_receive(s, msg).wire.last()) == Some(
            (Event::Retransmit(expected), s.next_tx),
        ),
        link_receive(s, msg).on_error,
        link_receive(s, msg).error_state,
        link_receive(s, msg).calls == s.calls.push(HwCall::SetErrorState(true)).push(
            HwCall::QueueSend(link_receive(s, msg).wire.last()),
        ),
        link_receive(s, msg).next_rx == s.next_rx,
        link_receive(s, msg).next_tx == s.next_tx,
        link_receive(s, msg).sent == s.sent,
        link_receive(s, msg).queued == s.queued,
{
    crate::serde::law_decode_encode(Event::Retransmit(expected), s.next_tx);
}

/// While there is an error, or while events wait, a new event is not sent but waits
/// behind the others: the one that is sent next stays the same.
pub proof fn law_queued_events_keep_their_order(s: Link, event: Event)
    requires
        link_wf(s),
        s.on_error || s.queued.len() > 0,
    ensures
        link_queue(s, event).wire == s.wire,
        s.queued.len() < 64 ==> link_queue(s, event).queued.drop_first() == s.queued
            && link_queue(s, event).queued.first() == event,
        s.queued.len() > 0 ==> link_send_queued(link_queue(s, event)).wire == link_send_queued(
            s,
        ).wire,
{
    if s.queued.len() < 64 {
        assert((seq![event] + s.queued).drop_first() =~= s.queued);
    }
}

/// Nothing that waits is sent while this side is on error, nor before the event sent last
/// from the queue was acknowledged, unless the other side asks for it.
pub proof fn law_waiting_events_are_held_back(s: Link, received: Option<Message>)
    requires
        link_wf(s),
        s.on_error || s.awaiting_ack,
        received matches Some(msg) ==> !(event_of(msg) is Retransmit),
    ensures
        link_iterate(s, received).queued == s.queued,
{
}

/// An acknowledgment lets one waiting event go, the one that has waited longest, in the
/// iteration that follows. If that event gets an acknowledgment, the next one waits for it.
pub proof fn law_ack_lets_one_event_go(s: Link, msg: Message, ack: Sid, sid: Sid)
    requires
        link_wf(s),
        crate::serde::decode(msg) == Some((Event::Ack(ack), sid)),
        in_turn(s, sid),
        s.on_error ==> s.next_rx is Some,
        s.queued.len() > 0,
    ensures
        ({
            let freed = link_receive(s, msg);
            let after = link_start(freed);
            &&& freed.queued == s.queued
            &&& freed.wire == s.wire
            &&& after.queued == s.queued.drop_last()
            &&& after.wire.len() == s.wire.len() + 1
            &&& crate::serde::decode(after.wire.last()) == Some((s.queued.last(), s.next_tx))
            &&& is_acknowledged(s.queued.last()) ==> link_start(after) == after
        }),
{
    assert(s.queued.last() == s.queued[s.queued.len() - 1]);
    crate::serde::law_decode_encode(s.queued.last(), s.next_tx);
}

/// The state once nothing holds the waiting events back: there is no error, and what was
/// sent from the queue is acknowledged.
pub open spec fn link_freed(s: Link) -> Link {
    Link { on_error: false, awaiting_ack: false, ..s }
}

/// Sending a number of waiting events, each as soon as nothing holds it back.
pub open spec fn link_send_many(s: Link, n: nat) -> Link
    decreases n,
{
    if n == 0 {
        s
    } else {
        link_start(link_freed(link_send_many(s, (n - 1) as nat)))
    }
}

/// What the other side asks for is sent again as it was, with the same ids and in the
/// same order: the first message at once, the others as soon as they may go.
pub proof fn law_resent_as_it_was(s: Link, from: Sid, n: nat)
    requires
        link_wf(s),
        from.valid(),
        1 <= n <= 32,
        forall|k: int| 0 <= k < n ==> is_resent(s.sent, #[trigger] crate::sid::sid_plus(from, k)),
    ensures
        link_send_many(link_retransmit(s, from), (n - 1) as nat).wire == s.wire + Seq::new(
            n,
            |k: int| s.sent[crate::sid::sid_plus(from, k).v as int]->0,
        ),
        link_send_many(link_retransmit(s, from), (n - 1) as nat).next_tx == crate::sid::sid_plus(
            from,
            n as int,
        ),
{
    lemma_resent_prefix(s.sent, from, n as int, 32);
    lemma_resend(s, from, n, n);
}

proof fn lemma_resend(s: Link, from: Sid, n: nat, m: nat)
    requires
        link_wf(s),
        from.valid(),
        1 <= n <= m <= 32,
        forall|k: int| 0 <= k < m ==> is_resent(s.sent, #[trigger] crate::sid::sid_plus(from, k)),
        resent_events(s.sent, from).len() >= m,
        forall|k: int|
            0 <= k < m ==> #[trigger] resent_events(s.sent, from)[k] == event_of(
                s.sent[crate::sid::sid_plus(from, k).v as int]->0,
            ),
    ensures
        ({
            let after = link_send_many(link_retransmit(s, from), (n - 1) as nat);
            &&& after.wire == s.wire + Seq::new(
                n,
                |k: int| s.sent[crate::sid::sid_plus(from, k).v as int]->0,
            )
            &&& after.next_tx == crate::sid::sid_plus(from, n as int)
            &&& after.queued == s.queued + resent_events(s.sent, from).skip(n as int).reverse()
        }),
    decreases n,
{
    let events = resent_events(s.sent, from);
    let sid = crate::sid::sid_plus(from, n - 1);
    let slot = sid.v as int;
    assert(is_resent(s.sent, sid));
    lemma_sent_decodes(s, slot);
    assert(events[n - 1] == event_of(s.sent[slot]->0));
    crate::sid::law_sid_cycle(from, n as int);
    let before = if n == 1 {
        Link {
            next_tx: from,
            sent: Seq::new(32, |i: int| None::<Message>),
            queued: s.queued + events.reverse(),
            ..s
        }
    } else {
        lemma_resend(s, from, (n - 1) as nat, m);
        link_freed(link_send_many(link_retransmit(s, from), (n - 2) as nat))
    };
    assert(events.skip(0) =~= events);
    assert(before.queued == s.queued + events.skip(n - 1).reverse());
    assert(before.queued.last() == events[n - 1]);
    assert(before.queued.drop_last() =~= s.queued + events.skip(n as int).reverse());
    let after = link_send_queued(before);
    assert(after == link_send_many(link_retransmit(s, from), (n - 1) as nat));
    assert(after.wire =~= s.wire + Seq::new(
        n,
        |k: int| s.sent[crate::sid::sid_plus(from, k).v as int]->0,
    ));
}

/// There is always room for what is to be sent again when at most half of the queue
/// is in use.
pub proof fn law_retransmit_finds_room(s: Link, msg: Message, from: Sid, sid: Sid)
    requires
        link_wf(s),
        crate::serde::decode(msg) == Some((Event::Retransmit(from), sid)),
        from.valid(),
        s.queued.len() <= 32,
    ensures
        link_accepts(s, msg),
{
    lemma_resent_len(s.sent, from, 32);
}

/// Sending an event and getting its acknowledgment: the other side hands the event
/// over, the slot of its id is free again, and both sides agree on the ids in both
/// directions, whether or not they knew each other's ids before.
pub proof fn law_exchange_synchronizes(a: Link, b: Link, event: Event)
    requires
        link_wf(a),
        link_wf(b),
        crate::serde::serializable(event),
        is_acknowledged(event),
        in_turn(b, a.next_tx),
        in_turn(a, b.next_tx),
    ensures
        ({
            let a1 = link_send(a, event);
            let b1 = link_receive(b, a1.wire.last());
            let a2 = link_receive(a1, b1.wire.last());
            &&& link_delivers(b, a1.wire.last()) == if event is Ping {
                None
            } else {
                Some(event)
            }
            &&& a2.sent == a.sent.update(a.next_tx.v as int, None)
            &&& a2.wire == a1.wire
            &&& a2.next_rx == Some(b1.next_tx)
            &&& b1.next_rx == Some(a2.next_tx)
        }),
{
    crate::serde::law_decode_encode(event, a.next_tx);
    crate::serde::law_decode_encode(Event::Ack(a.next_tx), b.next_tx);
    let a1 = link_send(a, event);
    let b1 = link_receive(b, a1.wire.last());
    let a2 = link_receive(a1, b1.wire.last());
    assert(a2.sent =~= a.sent.update(a.next_tx.v as int, None));
}

/// The id that is expected moves on by one with each message that comes in its turn, and
/// stays with every other one; an event is handed over only when it moves.
pub proof fn law_expected_id_moves_by_one(s: Link, msg: Message)
    requires
        link_wf(s),
        link_accepts(s, msg),
    ensures
        link_receive(s, msg).next_rx == s.next_rx || (crate::serde::decode(msg) matches Some(
            (_, sid),
        ) && in_turn(s, sid) && link_receive(s, msg).next_rx == Some(sid.succ())),
        link_delivers(s, msg) is Some ==> link_receive(s, msg).next_rx != s.next_rx,
{
    crate::serde::law_decoded_sid_valid(msg);
}

/// An acknowledgment in its turn frees the slot of the id that it names, and only that one;
/// it is not answered.
pub proof fn law_ack_frees_its_slot(s: Link, msg: Message, ack: Sid, sid: Sid)
    requires
        link_wf(s),
        crate::serde::decode(msg) == Some((Event::Ack(ack), sid)),
        in_turn(s, sid),
        ack.valid(),
    ensures
        link_receive(s, msg).sent[ack.v as int] is None,
        forall|i: int|
            0 <= i < 32 && i != ack.v ==> #[trigger] link_receive(s, msg).sent[i] == s.sent[i],
        link_receive(s, msg).wire == s.wire,
        link_delivers(s, msg) is None,
{
}

/// A side that has sent nothing yet makes itself heard in its first iteration, whatever it
/// receives: from then on the other side knows its ids.
pub proof fn law_silent_side_sends_a_ping(s: Link, received: Option<Message>)
    requires
        link_wf(s),
        s.need_ping,
        !s.on_error,
    ensures
        !link_iterate(s, received).need_ping,
        link_iterate(s, received).wire.len() > s.wire.len(),
        received is None && s.queued.len() == 0 ==> crate::serde::decode(
            link_iterate(s, received).wire.last(),
        ) == Some((Event::Ping, s.next_tx)),
{
    crate::serde::law_decode_encode(Event::Ping, s.next_tx);
}

/// When a message is lost and a later one arrives, the lost one is asked for, is sent
/// again as it was, and is taken: both sides agree on the next id again.
pub proof fn law_lost_message_is_recovered(a: Link, b: Link, lost: Sid, later: Message)
    requires
        link_wf(a),
        link_wf(b),
        b.next_rx == Some(lost),
        is_resent(a.sent, lost),
        b.last_msg != Some(later),
        crate::serde::decode(later) is None || (crate::serde::decode(later) matches Some(
            (event, sid),
        ) && sid != lost && !(event is Retransmit)),
    ensures
        ({
            let b1 = link_receive(b, later);
            let a1 = link_receive(a, b1.wire.last());
            let again = a1.wire.last();
            let b2 = link_receive(b1, again);
            &&& Some(again) == a.sent[lost.v as int]
            &&& link_delivers(b1, again) == if is_for_caller(event_of(again)) {
                Some(event_of(again))
            } else {
                None
            }
            &&& b2.next_rx == Some(a1.next_tx)
            &&& !b2.on_error
        }),
{
    law_bad_message_is_asked_again(b, later, lost);
    crate::sid::law_sid_cycle(lost, 1);
    law_resent_as_it_was(a, lost, 1);
    lemma_sent_decodes(a, lost.v as int);
}

/// However far the sides are apart, one message that is corrupt or out of turn brings them
/// together: this side asks for the id that it expects, the other one goes back to that id,
/// and its answer is taken. The answer is what is to be sent again, or what waits, or a ping.
pub proof fn law_sides_agree_again(a: Link, b: Link, expected: Sid, bad: Message)
    requires
        link_wf(a),
        link_wf(b),
        b.next_rx == Some(expected),
        b.last_msg != Some(bad),
        crate::serde::decode(bad) is None || (crate::serde::decode(bad) matches Some((event, sid))
            && sid != expected && !(event is Retransmit)),
        forall|k: int| 0 <= k < a.queued.len() ==> is_kept(#[trigger] a.queued[k]),
    ensures
        ({
            let b1 = link_receive(b, bad);
            let a1 = link_receive(a, b1.wire.last());
            let b2 = link_receive(b1, a1.wire.last());
            &&& b2.next_rx == Some(a1.next_tx)
            &&& !b2.on_error
        }),
{
    law_bad_message_is_asked_again(b, bad, expected);
    lemma_resent(a, expected);
    let again = resent_events(a.sent, expected);
    let queued = a.queued + again.reverse();
    let answer = if queued.len() == 0 {
        Event::Ping
    } else {
        queued.last()
    };
    if again.len() > 0 {
        assert(answer == again[0]);
    } else if queued.len() > 0 {
        assert(answer == a.queued[a.queued.len() - 1]);
    }
    crate::serde::law_decode_encode(answer, expected);
}

/// Whatever is sent or received, a consistent state leads to a consistent one.
pub proof fn law_state_stays_consistent(s: Link, event: Event, msg: Message)
    requires
        link_wf(s),
    ensures
        crate::serde::serializable(event) ==> link_wf(link_send(s, event)) && link_wf(
            link_queue(s, event),
        ),
        link_wf(link_start(s)),
        link_wf(link_ping(s)),
        link_accepts(s, msg) ==> link_wf(link_receive(s, msg)),
{
    if crate::serde::serializable(event) {
        lemma_send_wf(s, event);
        let queue = link_queue(s, event).queued;
        assert forall|i: int| 0 <= i < queue.len() implies crate::serde::serializable(
            #[trigger] queue[i],
        ) by {
            if queue.len() > s.queued.len() && i > 0 {
                assert(queue[i] == s.queued[i - 1]);
            }
        }
    }
    lemma_send_wf(s, Event::Ping);
    lemma_send_queued_wf(s);
    if link_accepts(s, msg) {
        lemma_receive_wf(s, msg);
    }
}

proof fn lemma_send_queued_wf(s: Link)
    requires
        link_wf(s),
    ensures
        link_wf(link_send_queued(s)),
{
    if s.queued.len() > 0 {
        let rest = Link {
            queued: s.queued.drop_last(),
            awaiting_ack: is_acknowledged(s.queued.last()),
            ..s
        };
        assert(link_wf(rest));
        assert(s.queued.last() == s.queued[s.queued.len() - 1]);
        lemma_send_wf(rest, s.queued.last());
    }
}

proof fn lemma_receive_wf(s: Link, msg: Message)
    requires
        link_wf(s),
        link_accepts(s, msg),
    ensures
        link_wf(link_receive(s, msg)),
{
    crate::serde::law_decoded_sid_valid(msg);
    match crate::serde::decode(msg) {
        Some((Event::Retransmit(from), _)) => {
            lemma_resent(s, from);
            let again = resent_events(s.sent, from);
            let queued = s.queued + again.reverse();
            let full = if queued.len() == 0 {
                seq![Event::Ping]
            } else {
                queued
            };
            let back = Link {
                next_tx: from,
                sent: Seq::new(32, |i: int| None::<Message>),
                queued: full,
                ..s
            };
            assert forall|i: int| 0 <= i < full.len() implies crate::serde::serializable(
                #[trigger] full[i],
            ) by {
                if queued.len() > 0 && i >= s.queued.len() {
                    let k = again.len() - 1 - (i - s.queued.len());
                    assert(full[i] == again[k]);
                }
            }
            assert(link_wf(back));
            lemma_send_queued_wf(back);
        },
        Some((event, sid)) => {
            lemma_send_wf(s, Event::Ack(sid));
            if s.next_rx is Some {
                lemma_send_wf(link_on_error(s), Event::Retransmit(s.next_rx->0));
            }
        },
        None => {
            if s.next_rx is Some {
                lemma_send_wf(link_on_error(s), Event::Retransmit(s.next_rx->0));
            }
        },
    }
}

/// Both sides agree on the ids, in both directions.
pub open spec fn in_sync(a: Link, b: Link) -> bool {
    a.next_rx == Some(b.next_tx) && b.next_rx == Some(a.next_tx)
}

/// One side sends a number of events, each of which the other side acknowledges: the states
/// of both, and the events that were handed over.
pub open spec fn exchanged(a: Link, b: Link, events: Seq<Event>) -> (Link, Link, Seq<Event>)
    decreases events.len(),
{
    if events.len() == 0 {
        (a, b, Seq::empty())
    } else {
        let (a0, b0, got) = exchanged(a, b, events.drop_last());
        let a1 = link_send(a0, events.last());
        let b1 = link_receive(b0, a1.wire.last());
        let a2 = link_receive(a1, b1.wire.last());
        (
            a2,
            b1,
            match link_delivers(b0, a1.wire.last()) {
                Some(event) => got.push(event),
                None => got,
            },
        )
    }
}

/// Over a line that loses nothing, all events of one side arrive at the other, each of them
/// once and in their order, and the sides stay in agreement.
pub proof fn law_events_arrive_in_order(a: Link, b: Link, events: Seq<Event>)
    requires
        link_wf(a),
        link_wf(b),
        in_sync(a, b),
        forall|k: int|
            0 <= k < events.len() ==> crate::serde::serializable(#[trigger] events[k])
                && is_for_caller(events[k]),
    ensures
        exchanged(a, b, events).2 == events,
        in_sync(exchanged(a, b, events).0, exchanged(a, b, events).1),
        link_wf(exchanged(a, b, events).0),
        link_wf(exchanged(a, b, events).1),
    decreases events.len(),
{
    if events.len() > 0 {
        let rest = events.drop_last();
        let event = events.last();
        assert(event == events[events.len() - 1]);
        assert forall|k: int| 0 <= k < rest.len() implies crate::serde::serializable(
            #[trigger] rest[k],
        ) && is_for_caller(rest[k]) by {
            assert(rest[k] == events[k]);
        }
        law_events_arrive_in_order(a, b, rest);
        let (a0, b0, got) = exchanged(a, b, rest);
        law_exchange_synchronizes(a0, b0, event);
        crate::serde::law_decode_encode(event, a0.next_tx);
        crate::serde::law_decode_encode(Event::Ack(a0.next_tx), b0.next_tx);
        let a1 = link_send(a0, event);
        lemma_send_wf(a0, event);
        lemma_receive_wf(b0, a1.wire.last());
        let b1 = link_receive(b0, a1.wire.last());
        lemma_receive_wf(a1, b1.wire.last());
        assert(events =~= rest.push(event));
    }
}

/// What follows when a side has sent a message: the other side receives it, and if it
/// answers, the answer is received. The states of both sides, and what was handed over.
pub open spec fn answered(a: Link, b: Link) -> (Link, Link, Option<Event>) {
    let b1 = link_receive(b, a.wire.last());
    let a1 = if b1.wire.len() > b.wire.len() {
        link_receive(a, b1.wire.last())
    } else {
        a
    };
    (a1, b1, link_delivers(b, a.wire.last()))
}

/// A side works off a number of its waiting events, one per iteration: the states of both
/// sides, and the events that were handed over.
pub open spec fn worked_off(a: Link, b: Link, n: nat) -> (Link, Link, Seq<Event>)
    decreases n,
{
    if n == 0 {
        (a, b, Seq::empty())
    } else {
        let (a0, b0, got) = worked_off(a, b, (n - 1) as nat);
        let (a1, b1, event) = answered(link_start(a0), b0);
        (
            a1,
            b1,
            match event {
                Some(event) => got.push(event),
                None => got,
            },
        )
    }
}

/// Whether an event can be sent again and again until it arrives: it is kept, and names no
/// id outside of the range.
pub open spec fn is_repeatable(event: Event) -> bool {
    &&& crate::serde::serializable(event)
    &&& is_kept(event)
    &&& event matches Event::Ack(ack) ==> ack.valid()
}

proof fn lemma_answered(a: Link, b: Link, event: Event)
    requires
        link_wf(a),
        link_wf(b),
        in_turn(b, a.next_tx),
        a.next_rx == Some(b.next_tx),
        is_repeatable(event),
    ensures
        ({
            let (a1, b1, got) = answered(link_send(a, event), b);
            &&& link_wf(a1)
            &&& link_wf(b1)
            &&& in_sync(a1, b1)
            &&& a1.queued == a.queued
            &&& a1.on_error == (a.on_error && !is_acknowledged(event))
            &&& a1.awaiting_ack == (a.awaiting_ack && !is_acknowledged(event))
            &&& got == if is_for_caller(event) {
                Some(event)
            } else {
                None
            }
        }),
{
    let sent = link_send(a, event);
    lemma_send_wf(a, event);
    crate::serde::law_decode_encode(event, a.next_tx);
    lemma_receive_wf(b, sent.wire.last());
    if is_acknowledged(event) {
        crate::serde::law_decode_encode(Event::Ack(a.next_tx), b.next_tx);
        let b1 = link_receive(b, sent.wire.last());
        lemma_receive_wf(sent, b1.wire.last());
    }
}

/// Over a line that loses nothing, the waiting events of one side arrive at the other, each
/// of them once and in the order in which they wait. Acknowledgments and pings arrive too,
/// but are not handed over.
#[verifier::rlimit(50)]
#[verifier::spinoff_prover]
pub proof fn law_waiting_events_arrive(a: Link, b: Link, n: nat)
    requires
        link_wf(a),
        link_wf(b),
        in_sync(a, b),
        !a.on_error,
        !a.awaiting_ack,
        n <= a.queued.len(),
        forall|k: int| 0 <= k < a.queued.len() ==> is_repeatable(#[trigger] a.queued[k]),
    ensures
        ({
            let (a1, b1, got) = worked_off(a, b, n);
            &&& got == a.queued.reverse().take(n as int).filter(|event: Event| is_for_caller(event))
            &&& a1.queued == a.queued.take(a.queued.len() - n)
            &&& in_sync(a1, b1)
            &&& link_wf(a1)
            &&& link_wf(b1)
            &&& !a1.on_error
            &&& !a1.awaiting_ack
        }),
    decreases n,
{
    let order = a.queued.reverse();
    if n == 0 {
        assert(order.take(0) =~= Seq::<Event>::empty());
        assert(a.queued.take(a.queued.len() as int) =~= a.queued);
        reveal_with_fuel(Seq::filter, 1);
    } else {
        law_waiting_events_arrive(a, b, (n - 1) as nat);
        let (a0, b0, got) = worked_off(a, b, (n - 1) as nat);
        let event = a0.queued.last();
        assert(event == a.queued[a.queued.len() - n]);
        let rest = Link {
            queued: a0.queued.drop_last(),
            awaiting_ack: is_acknowledged(event),
            ..a0
        };
        assert(link_wf(rest));
        assert(rest.queued =~= a.queued.take(a.queued.len() - n));
        lemma_answered(rest, b0, event);
        let longer = order.take(n as int);
        assert(longer.drop_last() =~= order.take(n - 1));
        assert(longer.last() == event);
        reveal_with_fuel(Seq::filter, 2);
    }
}

/// What is to be handed over when the other side asks for an id: what was sent from that id
/// on and is not acknowledged, and behind it what waits.
pub open spec fn outstanding(s: Link, from: Sid) -> Seq<Event> {
    resent_events(s.sent, from) + s.queued.reverse()
}

/// Nothing is lost. When a message is lost and something else arrives in its place, all
/// that is outstanding arrives, each event once and in its order, and the sides agree on
/// the ids again, in both directions.
#[verifier::rlimit(50)]
#[verifier::spinoff_prover]
pub proof fn law_nothing_is_lost(a: Link, b: Link, expected: Sid, bad: Message)
    requires
        link_wf(a),
        link_wf(b),
        b.next_rx == Some(expected),
        a.next_rx == Some(b.next_tx),
        b.last_msg != Some(bad),
        crate::serde::decode(bad) is None || (crate::serde::decode(bad) matches Some((event, sid))
            && sid != expected && !(event is Retransmit)),
        0 < outstanding(a, expected).len() <= 64,
        forall|k: int|
            0 <= k < outstanding(a, expected).len() ==> is_repeatable(
                #[trigger] outstanding(a, expected)[k],
            ),
        a.on_error ==> is_acknowledged(outstanding(a, expected)[0]),
    ensures
        ({
            let b1 = link_receive(b, bad);
            let (a2, b2, first) = answered(link_receive(a, b1.wire.last()), b1);
            let (a3, b3, others) = worked_off(
                a2,
                b2,
                (outstanding(a, expected).len() - 1) as nat,
            );
            let got = match first {
                Some(event) => seq![event] + others,
                None => others,
            };
            &&& got == outstanding(a, expected).filter(|event: Event| is_for_caller(event))
            &&& a3.queued.len() == 0
            &&& in_sync(a3, b3)
        }),
{
    law_bad_message_is_asked_again(b, bad, expected);
    lemma_resent(a, expected);
    let b1 = link_receive(b, bad);
    lemma_send_wf(link_on_error(b), Event::Retransmit(expected));
    let all = outstanding(a, expected);
    let again = resent_events(a.sent, expected);
    let queued = a.queued + again.reverse();
    assert(queued =~= all.reverse());
    let event = all[0];
    assert(queued.last() == event);
    let rest = Link {
        next_tx: expected,
        sent: Seq::new(32, |i: int| None::<Message>),
        queued: queued.drop_last(),
        awaiting_ack: is_acknowledged(event),
        ..a
    };
    assert forall|i: int| 0 <= i < rest.queued.len() implies is_repeatable(
        #[trigger] rest.queued[i],
    ) by {
        assert(rest.queued[i] == all[all.len() - 1 - i]);
    }
    assert(link_wf(rest));
    assert(link_receive(a, b1.wire.last()) == link_send(rest, event));
    lemma_answered(rest, b1, event);
    let (a2, b2, first) = answered(link_send(rest, event), b1);
    let n = (all.len() - 1) as nat;
    law_waiting_events_arrive(a2, b2, n);
    assert(rest.queued.reverse().take(n as int) =~= all.drop_first());
    assert(rest.queued.take(rest.queued.len() - n) =~= Seq::<Event>::empty());
    lemma_filter_first(all);
}

proof fn lemma_filter_first(events: Seq<Event>)
    requires
        events.len() > 0,
    ensures
        ({
            let p = |event: Event| is_for_caller(event);
            events.filter(p) == if is_for_caller(events[0]) {
                seq![events[0]] + events.drop_first().filter(p)
            } else {
                events.drop_first().filter(p)
            }
        }),
    decreases events.len(),
{
    let p = |event: Event| is_for_caller(event);
    reveal_with_fuel(Seq::filter, 2);
    if events.len() == 1 {
        assert(events.drop_first() =~= Seq::<Event>::empty());
        assert(events.drop_last() =~= Seq::<Event>::empty());
        assert(seq![events[0]] + Seq::<Event>::empty() =~= Seq::<Event>::empty().push(events[0]));
    } else {
        lemma_filter_first(events.drop_last());
        assert(events.drop_last().drop_first() =~= events.drop_first().drop_last());
        let middle = events.drop_last().drop_first().filter(p);
        assert(seq![events[0]] + middle.push(events.last()) =~= (seq![events[0]] + middle).push(
            events.last(),
        ));
    }
}

/// Sending an event hands one message to the hardware, behind the others: it reads back as
/// the event, under the next id. The id is used up and the message is kept under it, except
/// for a noop and a retransmit. What waits stays.
pub proof fn law_sent_event_is_on_the_wire<W: Hardware>(p: &mut SideProtocol<W>, event: Event)
    requires
        old(p).wf(),
        crate::serde::serializable(event),
        call_ensures(SideProtocol::<W>::send_event, (p, event), ()),
    ensures
        final(p).hw.wire().len() == old(p).hw.wire().len() + 1,
        final(p).hw.wire().drop_last() == old(p).hw.wire(),
        crate::serde::decode(final(p).hw.wire().last()) == Some((event, old(p).next_tx_sid)),
        event is Noop || event is Retransmit ==> final(p).next_tx_sid == old(p).next_tx_sid && final(p).sent@ == old(p).sent@,
        !(event is Noop || event is Retransmit) ==> final(p).next_tx_sid.v == (old(p).next_tx_sid.v
            + 1) % 32 && final(p).sent@ == old(p).sent@.update(
            old(p).next_tx_sid.v as int,
            Some(final(p).hw.wire().last()),
        ),
        final(p).queued_events@ == old(p).queued_events@,
        final(p).next_rx_sid == old(p).next_rx_sid,
        final(p).retransmit_on_going == old(p).retransmit_on_going,
        !final(p).need_ping,
{
    law_send_under_next_id(old(p)@, event);
    assert(final(p)@.wire.drop_last() =~= old(p)@.wire);
}

/// Queueing an event loses none, as long as there is room. Without an error and with nothing
/// waiting, it is on the wire at once, as one message under the next id. Otherwise nothing is
/// sent, and the event waits behind the others.
pub proof fn law_queued_event_is_not_lost<W: Hardware>(p: &mut SideProtocol<W>, event: Event)
    requires
        old(p).wf(),
        crate::serde::serializable(event),
        call_ensures(SideProtocol::<W>::queue_event, (p, event), ()),
    ensures
        !old(p).retransmit_on_going && old(p).queued_events@.len() == 0 ==> {
            &&& final(p).hw.wire().len() == old(p).hw.wire().len() + 1
            &&& final(p).hw.wire().drop_last() == old(p).hw.wire()
            &&& crate::serde::decode(final(p).hw.wire().last()) == Some((event, old(p).next_tx_sid))
            &&& final(p).queued_events@.len() == 0
        },
        old(p).retransmit_on_going || old(p).queued_events@.len() > 0 ==> {
            &&& final(p).hw.wire() == old(p).hw.wire()
            &&& old(p).queued_events@.len() < 64 ==> final(p).queued_events@ == seq![event] + old(p).queued_events@
            &&& old(p).queued_events@.len() >= 64 ==> final(p).queued_events@ == old(p).queued_events@
        },
{
    law_send_under_next_id(old(p)@, event);
    assert(old(p)@.wire.push(crate::serde::encode(event, old(p)@.next_tx)).drop_last()
        =~= old(p)@.wire);
}

/// The event that has waited longest goes first, under the next id, and only it; nothing
/// goes while there is an error or while an acknowledgment is awaited.
pub proof fn law_longest_waiting_event_goes<W: Hardware>(p: &mut SideProtocol<W>)
    requires
        old(p).wf(),
        call_ensures(SideProtocol::<W>::send_next_queued, (p,), ()),
    ensures
        old(p).retransmit_on_going || old(p).awaiting_ack || old(p).queued_events@.len() == 0
            ==> final(p).hw.wire() == old(p).hw.wire() && final(p).queued_events@ == old(p).queued_events@,
        !old(p).retransmit_on_going && !old(p).awaiting_ack && old(p).queued_events@.len() > 0 ==> {
            &&& final(p).hw.wire().len() == old(p).hw.wire().len() + 1
            &&& final(p).hw.wire().drop_last() == old(p).hw.wire()
            &&& crate::serde::decode(final(p).hw.wire().last()) == Some(
                (old(p).queued_events@.last(), old(p).next_tx_sid),
            )
            &&& final(p).queued_events@ == old(p).queued_events@.drop_last()
            &&& final(p).awaiting_ack <==> !(old(p).queued_events@.last() is Noop || old(p).queued_events@.last() is Ack || old(p).queued_events@.last() is Retransmit)
        },
{
    let s = old(p)@;
    if s.queued.len() > 0 {
        assert(s.queued.last() == s.queued[s.queued.len() - 1]);
        law_send_under_next_id(s, s.queued.last());
        assert(s.wire.push(crate::serde::encode(s.queued.last(), s.next_tx)).drop_last()
            =~= s.wire);
    }
}

/// A message that comes in its turn is taken: the next id is expected then, and an error is
/// over. Keys, animations, layers and seeds are handed over as they were sent. Everything
/// but a noop and an acknowledgment is answered by one acknowledgment of its id. An
/// acknowledgment frees the message that it names and no other one.
#[verifier::rlimit(50)]
#[verifier::spinoff_prover]
pub proof fn law_message_in_turn_is_taken<W: Hardware>(
    p: &mut SideProtocol<W>,
    msg: Message,
    event: Event,
    sid: Sid,
    r: Option<Event>,
)
    requires
        old(p).wf(),
        call_ensures(SideProtocol::<W>::process_received_message, (p, msg), r),
        crate::serde::decode(msg) == Some((event, sid)),
        old(p).next_rx_sid is None || old(p).next_rx_sid == Some(sid),
        !(event is Retransmit),
        event matches Event::Ack(ack) ==> ack.v < 32,
    ensures
        r == match event {
            Event::Noop | Event::Ping | Event::Ack(_) | Event::Retransmit(_) => None,
            _ => Some(event),
        },
        final(p).next_rx_sid matches Some(next) && next.v == (sid.v + 1) % 32,
        old(p).next_rx_sid is Some ==> !final(p).retransmit_on_going,
        final(p).queued_events@ == old(p).queued_events@,
        event is Noop || event is Ack ==> final(p).hw.wire() == old(p).hw.wire() && final(p).next_tx_sid == old(p).next_tx_sid,
        !(event is Noop || event is Ack) ==> {
            &&& final(p).hw.wire().len() == old(p).hw.wire().len() + 1
            &&& final(p).hw.wire().drop_last() == old(p).hw.wire()
            &&& crate::serde::decode(final(p).hw.wire().last()) == Some(
                (Event::Ack(sid), old(p).next_tx_sid),
            )
            &&& final(p).next_tx_sid.v == (old(p).next_tx_sid.v + 1) % 32
            &&& final(p).sent@ == old(p).sent@.update(
                old(p).next_tx_sid.v as int,
                Some(final(p).hw.wire().last()),
            )
        },
        final(p).last_msg == Some(msg),
        !(event is Ack) ==> final(p).awaiting_ack == old(p).awaiting_ack,
        old(p).next_rx_sid is None ==> final(p).retransmit_on_going == old(p).retransmit_on_going,
        final(p).hw.error_state() == old(p).hw.error_state(),
        event matches Event::Ack(ack) ==> final(p).sent@ == old(p).sent@.update(
            ack.v as int,
            None,
        ) && !final(p).awaiting_ack,
        event is Noop ==> final(p).sent@ == old(p).sent@,
{
    let s = old(p)@;
    assert(final(p)@ == link_receive(s, msg));
    lemma_taken(s, msg, event, sid);
    crate::serde::law_decoded_sid_valid(msg);
    lemma_succ(sid);
    lemma_succ(s.next_tx);
}

proof fn lemma_succ(sid: Sid)
    requires
        sid.valid(),
    ensures
        sid.succ().v == (sid.v + 1) % 32,
{
}

#[verifier::rlimit(50)]
#[verifier::spinoff_prover]
proof fn lemma_taken(s: Link, msg: Message, event: Event, sid: Sid)
    requires
        link_wf(s),
        crate::serde::decode(msg) == Some((event, sid)),
        in_turn(s, sid),
        !(event is Retransmit),
    ensures
        ({
            let after = link_receive(s, msg);
            &&& after.next_rx == Some(sid.succ())
            &&& after.on_error == (s.on_error && s.next_rx is None)
            &&& after.queued == s.queued
            &&& after.last_msg == Some(msg)
            &&& after.error_state == s.error_state
            &&& after.awaiting_ack == (s.awaiting_ack && !(event is Ack))
            &&& event is Noop || event is Ack ==> after.wire == s.wire && after.next_tx == s.next_tx
            &&& event is Noop ==> after.sent == s.sent
            &&& event matches Event::Ack(ack) ==> after.sent == s.sent.update(ack.v as int, None)
            &&& !(event is Noop || event is Ack) ==> {
                &&& after.wire.len() == s.wire.len() + 1
                &&& after.wire.drop_last() == s.wire
                &&& crate::serde::decode(after.wire.last()) == Some((Event::Ack(sid), s.next_tx))
                &&& after.next_tx == s.next_tx.succ()
                &&& after.sent == s.sent.update(s.next_tx.v as int, Some(after.wire.last()))
            }
        }),
{
    if is_acknowledged(event) {
        crate::serde::law_decode_encode(Event::Ack(sid), s.next_tx);
        let answer = crate::serde::encode(Event::Ack(sid), s.next_tx);
        let after = link_receive(s, msg);
        assert(after.wire == s.wire.push(answer));
        assert(after.wire.last() == answer);
        assert(after.wire.drop_last() =~= s.wire);
    }
}

/// A message that is corrupt or out of its turn is not handed over. The expected one is asked
/// for, and the side is on error. The message that was taken last is ignored when it comes
/// again, and before any message was taken, a corrupt one is.
pub proof fn law_message_out_of_turn_is_not_taken<W: Hardware>(
    p: &mut SideProtocol<W>,
    msg: Message,
    r: Option<Event>,
)
    requires
        old(p).wf(),
        call_ensures(SideProtocol::<W>::process_received_message, (p, msg), r),
        match crate::serde::decode(msg) {
            Some((event, sid)) => !(event is Retransmit) && old(p).next_rx_sid is Some && old(p).next_rx_sid != Some(sid),
            None => true,
        },
    ensures
        r is None,
        final(p).next_rx_sid == old(p).next_rx_sid,
        final(p).next_tx_sid == old(p).next_tx_sid,
        final(p).sent@ == old(p).sent@,
        final(p).queued_events@ == old(p).queued_events@,
        old(p).next_rx_sid is None || (crate::serde::decode(msg) is Some && old(p).last_msg == Some(
            msg,
        )) ==> final(p)@ == old(p)@,
        !(crate::serde::decode(msg) is Some && old(p).last_msg == Some(msg)) ==> (old(p).next_rx_sid matches Some(expected) ==> {
            &&& final(p).retransmit_on_going
            &&& final(p).hw.error_state()
            &&& final(p).hw.wire().len() == old(p).hw.wire().len() + 1
            &&& final(p).hw.wire().drop_last() == old(p).hw.wire()
            &&& crate::serde::decode(final(p).hw.wire().last()) == Some(
                (Event::Retransmit(expected), old(p).next_tx_sid),
            )
        }),
{
    if old(p).next_rx_sid is Some {
        let event = Event::Retransmit(old(p).next_rx_sid->0);
        crate::serde::law_decode_encode(event, old(p)@.next_tx);
        assert(old(p)@.wire.push(crate::serde::encode(event, old(p)@.next_tx)).drop_last()
            =~= old(p)@.wire);
    }
}

/// A retransmit that is asked for is answered by one message, under the id that is asked
/// for: the one that was sent under that id, as it was, if it waits for its acknowledgment.
/// Nothing is handed over, and what is expected from the other side stays.
#[verifier::rlimit(50)]
#[verifier::spinoff_prover]
pub proof fn law_retransmit_is_answered<W: Hardware>(
    p: &mut SideProtocol<W>,
    msg: Message,
    from: Sid,
    sid: Sid,
    r: Option<Event>,
)
    requires
        old(p).wf(),
        call_ensures(SideProtocol::<W>::process_received_message, (p, msg), r),
        crate::serde::decode(msg) == Some((Event::Retransmit(from), sid)),
        from.v < 32,
        forall|k: int|
            0 <= k < old(p).queued_events@.len() ==> is_kept(#[trigger] old(p).queued_events@[k]),
    ensures
        r is None,
        final(p).next_rx_sid == old(p).next_rx_sid,
        final(p).retransmit_on_going == old(p).retransmit_on_going,
        final(p).hw.wire().len() == old(p).hw.wire().len() + 1,
        final(p).hw.wire().drop_last() == old(p).hw.wire(),
        crate::serde::decode(final(p).hw.wire().last()) matches Some((_, id)) && id == from,
        final(p).next_tx_sid.v == (from.v + 1) % 32,
        old(p).sent@[from.v as int] matches Some(sent) ==> (crate::serde::decode(sent) matches Some(
            (event, _),
        ) && (!(event is Ping) ==> final(p).hw.wire().last() == sent)),
        (forall|i: int| 0 <= i < 32 ==> #[trigger] old(p).sent@[i] is None) && old(p).queued_events@.len() == 0 ==> crate::serde::decode(final(p).hw.wire().last()) == Some(
            (Event::Ping, from),
        ),
{
    let s = old(p)@;
    assert(s.queued == old(p).queued_events@ && s.sent == old(p).sent@);
    assert(final(p)@ == link_retransmit(s, from));
    lemma_answer(s, from);
}

proof fn lemma_answer(s: Link, from: Sid)
    requires
        link_wf(s),
        from.valid(),
        forall|k: int| 0 <= k < s.queued.len() ==> is_kept(#[trigger] s.queued[k]),
    ensures
        ({
            let after = link_retransmit(s, from);
            &&& after.wire.len() == s.wire.len() + 1
            &&& after.wire.drop_last() == s.wire
            &&& crate::serde::decode(after.wire.last()) matches Some((_, id)) && id == from
            &&& after.next_tx == from.succ()
            &&& after.next_rx == s.next_rx
            &&& after.on_error == s.on_error
            &&& s.sent[from.v as int] matches Some(sent) ==> (crate::serde::decode(sent) matches Some(
                (event, _),
            ) && (!(event is Ping) ==> after.wire.last() == sent))
            &&& (forall|i: int| 0 <= i < 32 ==> #[trigger] s.sent[i] is None) && s.queued.len() == 0
                ==> crate::serde::decode(after.wire.last()) == Some((Event::Ping, from))
        }),
{
    lemma_resent(s, from);
    let again = resent_events(s.sent, from);
    let queued = s.queued + again.reverse();
    let answer = if queued.len() == 0 {
        Event::Ping
    } else {
        queued.last()
    };
    if again.len() > 0 {
        assert(answer == again[0]);
    } else if queued.len() > 0 {
        assert(answer == s.queued[s.queued.len() - 1]);
    }
    crate::serde::law_decode_encode(answer, from);
    let after = link_retransmit(s, from);
    assert(after.wire == s.wire.push(crate::serde::encode(answer, from)));
    assert(after.wire.drop_last() =~= s.wire);
    if s.sent[from.v as int] is Some {
        lemma_sent_decodes(s, from.v as int);
        if !(event_of(s.sent[from.v as int]->0) is Ping) {
            crate::sid::law_sid_cycle(from, 1);
            lemma_resent_prefix(s.sent, from, 1, 32);
            assert(crate::sid::sid_plus(from, 0) == from);
            assert(again[0] == event_of(s.sent[from.v as int]->0));
        }
    }
    if (forall|i: int| 0 <= i < 32 ==> #[trigger] s.sent[i] is None) {
        lemma_nothing_to_resend(s, from, 32);
    }
}

proof fn lemma_nothing_to_resend(s: Link, from: Sid, n: int)
    requires
        from.valid(),
        0 <= n <= 32,
        forall|i: int| 0 <= i < 32 ==> #[trigger] s.sent[i] is None,
    ensures
        resent_upto(s.sent, from, n).len() == 0,
    decreases n,
{
    if n == 0 {
        assert(crate::sid::sid_range(from, from).take(0) =~= Seq::<Sid>::empty());
        reveal_with_fuel(Seq::filter, 1);
    } else {
        lemma_nothing_to_resend(s, from, n - 1);
        lemma_resent_step(s.sent, from, n - 1);
        let sid = crate::sid::sid_range(from, from)[n - 1];
        assert(s.sent[sid.v as int] is None);
    }
}

/// The event that a message would bring is the one that it does bring.
pub proof fn law_event_of_message_is_handed_over<W: Hardware>(
    p: &mut SideProtocol<W>,
    msg: Message,
    foreseen: Option<Event>,
    r: Option<Event>,
)
    requires
        old(p).wf(),
        call_ensures(SideProtocol::<W>::event_of_message, (&*old(p), msg), foreseen),
        call_ensures(SideProtocol::<W>::process_received_message, (p, msg), r),
    ensures
        r == foreseen,
{
}

/// A message is refused only if it asks for more than the queue can hold, or names an id
/// that there is not.
pub proof fn law_only_what_does_not_fit_is_refused<W: Hardware>(
    p: SideProtocol<W>,
    msg: Message,
    b: bool,
)
    requires
        p.wf(),
        call_ensures(SideProtocol::<W>::accepts, (&p, msg), b),
    ensures
        !b ==> match crate::serde::decode(msg) {
            Some((Event::Retransmit(from), _)) => from.v >= 32 || p.queued_events@.len() > 32,
            Some((Event::Ack(ack), _)) => ack.v >= 32,
            _ => false,
        },
        crate::serde::decode(msg) matches Some((Event::Retransmit(from), _)) && from.v >= 32 ==> !b,
{
    if let Some((Event::Retransmit(from), _)) = crate::serde::decode(msg) {
        if from.valid() {
            lemma_resent_len(p@.sent, from, 32);
        }
    }
}

/// A side that has sent nothing yet sends a ping, once, and not while it is on error.
pub proof fn law_ping_is_sent_once<W: Hardware>(p: &mut SideProtocol<W>)
    requires
        old(p).wf(),
        call_ensures(SideProtocol::<W>::ping_if_needed, (p,), ()),
    ensures
        !old(p).need_ping || old(p).retransmit_on_going ==> final(p)@ == old(p)@,
        old(p).need_ping && !old(p).retransmit_on_going ==> {
            &&& final(p).hw.wire().len() == old(p).hw.wire().len() + 1
            &&& crate::serde::decode(final(p).hw.wire().last()) == Some(
                (Event::Ping, old(p).next_tx_sid),
            )
            &&& !final(p).need_ping
        },
{
    crate::serde::law_decode_encode(Event::Ping, old(p)@.next_tx);
}

/// An iteration does what its parts do: a waiting event goes if it may, the message is
/// processed, and a ping is sent if it is needed.
pub proof fn law_iteration_is_its_parts<W: Hardware>(
    p: &mut SideProtocol<W>,
    first: &mut SideProtocol<W>,
    second: &mut SideProtocol<W>,
    third: &mut SideProtocol<W>,
    msg: Message,
    r: Option<Event>,
    event: Option<Event>,
)
    requires
        old(p).wf(),
        call_ensures(SideProtocol::<W>::run_once_continuous, (p, Some(msg)), r),
        old(first)@ == old(p)@,
        call_ensures(SideProtocol::<W>::send_next_queued, (first,), ()),
        old(second)@ == final(first)@,
        call_ensures(SideProtocol::<W>::process_received_message, (second, msg), event),
        old(third)@ == final(second)@,
        call_ensures(SideProtocol::<W>::ping_if_needed, (third,), ()),
    ensures
        final(p)@ == final(third)@,
        r == event,
{
}

/// Without a message, an iteration hands nothing over and does the rest.
pub proof fn law_iteration_without_a_message<W: Hardware>(
    p: &mut SideProtocol<W>,
    first: &mut SideProtocol<W>,
    second: &mut SideProtocol<W>,
    r: Option<Event>,
)
    requires
        old(p).wf(),
        call_ensures(SideProtocol::<W>::run_once_continuous, (p, None), r),
        old(first)@ == old(p)@,
        call_ensures(SideProtocol::<W>::send_next_queued, (first,), ()),
        old(second)@ == final(first)@,
        call_ensures(SideProtocol::<W>::ping_if_needed, (second,), ()),
    ensures
        final(p)@ == final(second)@,
        r is None,
{
}

/// Receiving one message is one iteration with it. Receiving stops behind the first message
/// that brings an event, and goes on to the end if there is none.
pub proof fn law_receive_iterates<W: Hardware>(
    p: &mut SideProtocol<W>,
    once: &mut SideProtocol<W>,
    msgs: &[Message],
    r: (Option<Event>, usize),
    event: Option<Event>,
)
    requires
        old(p).wf(),
        call_ensures(SideProtocol::<W>::receive, (p, msgs), r),
        msgs@.len() > 0,
        old(once)@ == old(p)@,
        call_ensures(SideProtocol::<W>::run_once_continuous, (once, Some(msgs@[0])), event),
    ensures
        r.0 is None ==> r.1 == msgs@.len(),
        event is Some ==> r == (event, 1usize) && final(p)@ == final(once)@,
        msgs@.len() == 1 ==> r == (event, 1usize) && final(p)@ == final(once)@,
        event is None && msgs@.len() > 1 ==> r.1 > 1,
{
    reveal_with_fuel(link_after, 2);
    assert(link_after(old(p)@, msgs@, 0) == old(p)@);
    assert(link_event_at(old(p)@, msgs@, 0) == event);
    assert(link_after(old(p)@, msgs@, 1) == final(once)@);
}

/// A new side knows nothing of the other one and has nothing waiting; its first message has
/// the id zero.
pub proof fn law_new_side<W: Hardware>(hw: W, name: &'static str, p: SideProtocol<W>)
    requires
        hw.wf(),
        call_ensures(SideProtocol::<W>::new, (hw, name), p),
    ensures
        p.hw == hw,
        p.name == name,
        p.next_rx_sid is None,
        p.next_tx_sid.v == 0,
        p.need_ping,
        !p.retransmit_on_going,
        !p.awaiting_ack,
        p.last_msg is None,
        p.queued_events@.len() == 0,
        forall|i: int| 0 <= i < 32 ==> #[trigger] p.sent@[i] is None,
{
    assert(p@.sent == p.sent@);
}

/// The events that were sent under the `n` ids from `from` on and still wait for their
/// acknowledgment, in the order of their ids. Pings are not sent again.
pub open spec fn unacknowledged(sent: Seq<Option<Message>>, from: Sid, n: int) -> Seq<Event>
    decreases n,
{
    if n <= 0 {
        Seq::empty()
    } else {
        let before = unacknowledged(sent, from, n - 1);
        match sent[(from.v + n - 1) % 32] {
            Some(msg) => match crate::serde::decode(msg) {
                Some((Event::Ping, _)) => before,
                Some((event, _)) => before.push(event),
                None => before,
            },
            None => before,
        }
    }
}

proof fn lemma_unacknowledged(s: Link, from: Sid, n: int)
    requires
        link_wf(s),
        from.valid(),
        0 <= n <= 32,
    ensures
        unacknowledged(s.sent, from, n) == resent_upto(s.sent, from, n),
    decreases n,
{
    if n == 0 {
        assert(crate::sid::sid_range(from, from).take(0) =~= Seq::<Sid>::empty());
        reveal_with_fuel(Seq::filter, 1);
        assert(resent_upto(s.sent, from, 0) =~= Seq::<Event>::empty());
    } else {
        lemma_unacknowledged(s, from, n - 1);
        lemma_resent_step(s.sent, from, n - 1);
        let sid = crate::sid::sid_range(from, from)[n - 1];
        assert(sid.v as int == (from.v + n - 1) % 32);
        if s.sent[sid.v as int] is Some {
            lemma_sent_decodes(s, sid.v as int);
        }
    }
}

/// When the other side asks for an id, everything that was sent from that id on and is not
/// acknowledged goes before what waits, in the order in which it was sent: the first of it
/// goes at once, under the id that is asked for, and nothing is dropped.
#[verifier::spinoff_prover]
pub proof fn law_retransmit_drops_nothing<W: Hardware>(
    p: &mut SideProtocol<W>,
    msg: Message,
    from: Sid,
    sid: Sid,
    r: Option<Event>,
)
    requires
        old(p).wf(),
        call_ensures(SideProtocol::<W>::process_received_message, (p, msg), r),
        crate::serde::decode(msg) == Some((Event::Retransmit(from), sid)),
        from.v < 32,
    ensures
        ({
            let all = old(p).queued_events@ + unacknowledged(old(p).sent@, from, 32).reverse();
            &&& all.len() > 0 ==> final(p).queued_events@ == all.drop_last()
                && crate::serde::decode(final(p).hw.wire().last()) == Some((all.last(), from))
            &&& all.len() == 0 ==> final(p).queued_events@.len() == 0 && crate::serde::decode(
                final(p).hw.wire().last(),
            ) == Some((Event::Ping, from))
        }),
{
    let s = old(p)@;
    assert(s.queued == old(p).queued_events@ && s.sent == old(p).sent@);
    assert(final(p)@ == link_retransmit(s, from));
    lemma_unacknowledged(s, from, 32);
    lemma_resent(s, from);
    let again = resent_events(s.sent, from);
    let all = s.queued + again.reverse();
    if all.len() == 0 {
        crate::serde::law_decode_encode(Event::Ping, from);
        assert(seq![Event::Ping].drop_last() =~= Seq::<Event>::empty());
    } else {
        if again.len() > 0 {
            assert(all.last() == again[0]);
        } else {
            assert(all.last() == s.queued[s.queued.len() - 1]);
        }
        crate::serde::law_decode_encode(all.last(), from);
    }
}

proof fn lemma_after_first(s: Link, msgs: Seq<Message>, n: int)
    requires
        1 <= n <= msgs.len(),
    ensures
        link_after(s, msgs, n) == link_after(
            link_iterate(s, Some(msgs[0])),
            msgs.skip(1),
            n - 1,
        ),
    decreases n,
{
    reveal_with_fuel(link_after, 2);
    if n > 1 {
        lemma_after_first(s, msgs, n - 1);
        assert(msgs.skip(1)[n - 2] == msgs[n - 1]);
    }
}

/// Where the first message brings no event, receiving goes on with the others.
#[verifier::spinoff_prover]
pub proof fn law_receive_goes_on<W: Hardware>(
    p: &mut SideProtocol<W>,
    once: &mut SideProtocol<W>,
    later: &mut SideProtocol<W>,
    msgs: &[Message],
    others: &[Message],
    r: (Option<Event>, usize),
    rest: (Option<Event>, usize),
)
    requires
        old(p).wf(),
        call_ensures(SideProtocol::<W>::receive, (p, msgs), r),
        msgs@.len() > 0,
        others@ == msgs@.skip(1),
        old(once)@ == old(p)@,
        call_ensures(SideProtocol::<W>::run_once_continuous, (once, Some(msgs@[0])), None),
        old(later)@ == final(once)@,
        call_ensures(SideProtocol::<W>::receive, (later, others), rest),
    ensures
        r.0 == rest.0,
        r.1 == rest.1 + 1,
        final(p)@ == final(later)@,
{
    let s = old(p)@;
    let t = final(once)@;
    reveal_with_fuel(link_after, 1);
    assert(link_after(s, msgs@, 0) == s);
    assert(t == link_iterate(s, Some(msgs@[0])));
    assert(link_event_at(s, msgs@, 0) is None);
    assert forall|k: int| 1 <= k < msgs@.len() implies #[trigger] link_event_at(s, msgs@, k)
        == link_event_at(t, others@, k - 1) by {
        lemma_after_first(s, msgs@, k);
        assert(others@[k - 1] == msgs@[k]);
    }
    assert(r.1 >= 1);
    let (a, b) = (r.1 as int, rest.1 + 1);
    if r.0 is Some {
        assert(link_event_at(s, msgs@, a - 1) is Some);
        assert(a >= 2);
        assert(link_event_at(t, others@, a - 2) is Some);
    }
    if rest.0 is Some {
        assert(link_event_at(t, others@, b - 2) is Some);
        assert(link_event_at(s, msgs@, b - 1) is Some);
    }
    if a < b {
        assert(r.0 is Some);
        assert(link_event_at(t, others@, a - 2) is None);
    } else if a > b {
        assert(rest.0 is Some);
        assert(link_event_at(s, msgs@, b - 1) is None);
    }
    lemma_after_first(s, msgs@, a);
}

/// A side is on error from the moment it asks for a retransmit until the message that it
/// expects has come.
pub proof fn law_on_error_until_the_message_comes<W: Hardware>(
    p: &mut SideProtocol<W>,
    msg: Message,
    r: Option<Event>,
    before: bool,
    after: bool,
)
    requires
        old(p).wf(),
        call_ensures(SideProtocol::<W>::is_on_error, (&*old(p),), before),
        call_ensures(SideProtocol::<W>::process_received_message, (p, msg), r),
        call_ensures(SideProtocol::<W>::is_on_error, (&*final(p),), after),
        old(p).next_rx_sid is Some,
    ensures
        !before && after ==> final(p).hw.wire().len() == old(p).hw.wire().len() + 1 && (
        crate::serde::decode(final(p).hw.wire().last()) matches Some((Event::Retransmit(id), _))
            && Some(id) == old(p).next_rx_sid),
        before && !after ==> (crate::serde::decode(msg) matches Some((_, sid)) && Some(sid) == old(p).next_rx_sid),
{
    crate::serde::law_decode_encode(Event::Retransmit(old(p)@.next_rx->0), old(p)@.next_tx);
}

} // verus!
