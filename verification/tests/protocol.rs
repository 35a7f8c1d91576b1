use cnano_rs::protocol::SideProtocol;
use cnano_rs::rgb_leds::AnimCommand;
use cnano_rs::serde::{deserialize, serialize, Event, Message};
use cnano_rs::sid::Sid;
use cnano_rs::side::HwProtocol;
use std::collections::VecDeque;

/// A side and the messages that it has yet to process
struct Side {
    protocol: SideProtocol<HwProtocol>,
    rx: VecDeque<Message>,
}

impl Side {
    fn new(name: &'static str) -> Self {
        Side {
            protocol: SideProtocol::new(HwProtocol::new(), name),
            rx: VecDeque::new(),
        }
    }

    /// The oldest message that is to be sent
    fn pop_oldest(&mut self) -> Option<Message> {
        let tx = &mut self.protocol.hw.tx;
        if tx.is_empty() {
            None
        } else {
            Some(tx.remove(0))
        }
    }

    /// Whether there is nothing to send
    fn is_silent(&self) -> bool {
        self.protocol.hw.tx.is_empty()
    }
}

fn sides() -> (Side, Side) {
    (Side::new("right"), Side::new("left"))
}

/// One iteration of a side, with the message that it has received, if any
fn run_once(side: &mut Side) -> Option<Event> {
    let received = match side.rx.pop_front() {
        Some(0x00000000) => None, // Filter out keepalive
        other => other,
    };
    side.protocol.run_once_continuous(received)
}

/// One exchange of messages between the two sides
fn communicate_once(right: &mut Side, left: &mut Side) -> (Option<Event>, Option<Event>) {
    // Transfer messages from left to right
    if let Some(msg) = left.pop_oldest() {
        right.rx.push_back(msg);
    }
    // Always run protocol cycle on right
    let to_right = run_once(right);

    // Transfer messages from right to left
    if let Some(msg) = right.pop_oldest() {
        left.rx.push_back(msg);
    }
    // Always run protocol cycle on left
    let to_left = run_once(left);
    (to_right, to_left)
}

/// Communicate between the two sides. Returns the events that each of them got
fn communicate(right: &mut Side, left: &mut Side, loop_nb: usize) -> (Vec<Event>, Vec<Event>) {
    let mut to_right = vec![];
    let mut to_left = vec![];
    for _ in 0..loop_nb {
        let (r, l) = communicate_once(right, left);
        to_right.extend(r);
        to_left.extend(l);
        if right.is_silent()
            && left.is_silent()
            && right.rx.is_empty()
            && left.rx.is_empty()
        {
            break;
        }
    }
    (to_right, to_left)
}

/// Let the two sides communicate until nothing waits any more. Returns the events that the
/// left side got
fn settle(right: &mut Side, left: &mut Side) -> Vec<Event> {
    let mut to_left = vec![];
    for _ in 0..40 {
        let (_, event) = communicate_once(right, left);
        to_left.extend(event);
    }
    to_left
}

/// Whether the side is stable
fn is_stable(side: &Side) -> bool {
    if side.protocol.is_on_error() {
        return false;
    }
    let mut ids = Sid::new(0).iter(Sid::new(0));
    while let Some(i) = ids.next() {
        if let Some(msg) = side.protocol.sent.get(i) {
            let (event, _) = deserialize(msg).unwrap();
            if !event.is_ack() {
                return false;
            }
        }
    }
    true
}

/// Verify that the two sides are synced
fn is_synced(right: &Side, left: &Side) -> bool {
    match (right.protocol.next_rx_sid, left.protocol.next_tx_sid) {
        (Some(rx), tx) if rx == tx => {}
        (Some(_), _) => return false,
        _ => {}
    }
    match (left.protocol.next_rx_sid, right.protocol.next_tx_sid) {
        (Some(rx), tx) if rx == tx => {}
        (Some(_), _) => return false,
        _ => {}
    }
    !right.protocol.is_on_error() && !left.protocol.is_on_error() && is_stable(right) && is_stable(left)
}

#[test]
fn test_protocol_synced() {
    let (mut right, mut left) = sides();

    // Send a message from right to left
    right.protocol.send_event(Event::Ping);
    let msg = right.pop_oldest().unwrap();
    left.rx.push_back(msg);
    run_once(&mut left);
    let msg = left.pop_oldest().unwrap();
    right.rx.push_back(msg);
    run_once(&mut right);
    assert!(right.protocol.sent.is_empty());
}

#[test]
fn test_invalid_sid() {
    let (mut right, mut left) = sides();

    // Both sides are synced
    right.protocol.next_rx_sid = Some(Sid::new(0));
    right.protocol.next_tx_sid = Sid::new(0);
    left.protocol.next_rx_sid = Some(Sid::new(0));
    left.protocol.next_tx_sid = Sid::new(0);

    // Send 4 SeedRng from right to left but only receive the 4th one
    right.protocol.send_event(Event::SeedRng(0));
    right.pop_oldest().unwrap();
    right.protocol.send_event(Event::SeedRng(1));
    right.pop_oldest().unwrap();
    right.protocol.send_event(Event::SeedRng(2));
    right.pop_oldest().unwrap();
    right.protocol.send_event(Event::SeedRng(3));
    // Let it commmunicate and stabilize
    let (_, mut to_left) = communicate(&mut right, &mut left, 10);
    assert!(is_stable(&right));
    assert!(is_stable(&left));
    // What still waits follows, one event per ack
    to_left.extend(settle(&mut right, &mut left));
    assert!(is_synced(&right, &left));
    assert_eq!(
        to_left,
        vec![
            Event::SeedRng(0),
            Event::SeedRng(1),
            Event::SeedRng(2),
            Event::SeedRng(3)
        ]
    );
}

#[test]
fn test_retransmit_simple() {
    let (mut right, mut left) = sides();

    // Both sides are synced
    right.protocol.next_rx_sid = Some(Sid::new(0));
    right.protocol.next_tx_sid = Sid::new(0);
    left.protocol.next_rx_sid = Some(Sid::new(0));
    left.protocol.next_tx_sid = Sid::new(0);

    // Send 1 events from right to left but corrupt the 2 next ones.
    right.protocol.send_event(Event::SeedRng(0));
    right.protocol.send_event(Event::SeedRng(1));
    right.protocol.send_event(Event::SeedRng(2));
    right.protocol.send_event(Event::SeedRng(3));
    let mut bad = [0u32, 0];
    for i in 0..=1 {
        let mut msg = right.protocol.hw.tx.pop().unwrap();
        msg ^= 0x1234;
        bad[i] = msg;
    }
    for i in 0..=1 {
        right.protocol.hw.tx.push(bad[i]);
    }
    // Let it commmunicate and stabilize
    let (_, mut to_left) = communicate(&mut right, &mut left, 30);
    assert!(is_synced(&right, &left));
    // What still waits follows, one event per ack
    to_left.extend(settle(&mut right, &mut left));
    assert!(is_synced(&right, &left));
    assert_eq!(
        to_left,
        vec![
            Event::SeedRng(0),
            Event::SeedRng(1),
            Event::SeedRng(2),
            Event::SeedRng(3)
        ]
    );
}

#[test]
fn test_retransmit_both_sides() {
    let (mut right, mut left) = sides();

    // Both sides are 2 messages out of sync
    right.protocol.next_rx_sid = Some(Sid::new(30));
    right.protocol.next_tx_sid = Sid::new(12);
    left.protocol.next_rx_sid = Some(Sid::new(10));
    left.protocol.next_tx_sid = Sid::new(28);
    // Let it commmunicate and stabilize
    right.protocol.send_event(Event::SeedRng(0));
    left.protocol.send_event(Event::Press(3, 3));
    communicate(&mut right, &mut left, 50);
    assert!(is_synced(&right, &left));

    left.protocol.send_event(Event::Press(3, 3));
    // Let it commmunicate and stabilize
    communicate(&mut right, &mut left, 5);
    assert!(is_synced(&right, &left));
}

/// Test the startup of the protocol when the two sides are not synced.
/// The right side is the master and the left side is the slave.
#[test]
fn test_startup_unsynced() {
    let (mut right, mut left) = sides();

    right.protocol.next_rx_sid = Some(Sid::new(30));
    right.protocol.next_tx_sid = Sid::new(2);
    left.protocol.next_rx_sid = None;
    left.protocol.next_tx_sid = Sid::new(0);
    // Let it commmunicate and stabilize
    communicate(&mut right, &mut left, 50);
    assert!(is_synced(&right, &left));
    left.protocol.send_event(Event::Press(3, 3));
    // Let it commmunicate and stabilize
    communicate(&mut right, &mut left, 10);
    assert!(is_synced(&right, &left));
}

#[test]
fn silent_side_sends_a_ping_once() {
    let (mut right, _) = sides();
    assert_eq!(right.protocol.run_once_continuous(None), None);
    let msg = right.pop_oldest().unwrap();
    assert_eq!(deserialize(msg), Ok((Event::Ping, Sid::new(0))));
    assert_eq!(right.protocol.run_once_continuous(None), None);
    assert!(right.is_silent());
}

#[test]
fn no_ping_while_there_is_an_error() {
    let (mut right, _) = sides();
    right.protocol.retransmit_on_going = true;
    assert_eq!(right.protocol.run_once_continuous(None), None);
    assert!(right.is_silent());
}

#[test]
fn unsynced_sides_find_each_other_with_the_first_event() {
    let (mut right, mut left) = sides();
    right.protocol.next_rx_sid = Some(Sid::new(30));
    right.protocol.next_tx_sid = Sid::new(2);
    left.protocol.next_tx_sid = Sid::new(0);
    left.protocol.send_event(Event::Press(3, 3));
    let (to_right, _) = communicate(&mut right, &mut left, 50);
    assert_eq!(to_right, vec![Event::Press(3, 3)]);
    assert!(is_synced(&right, &left));
}

#[test]
fn event_is_handed_over_and_acknowledged() {
    let (mut right, mut left) = sides();
    right.protocol.queue_event(Event::Press(1, 2));
    let msg = right.pop_oldest().unwrap();
    assert_eq!(deserialize(msg), Ok((Event::Press(1, 2), Sid::new(0))));
    assert_eq!(left.protocol.process_received_message(msg), Some(Event::Press(1, 2)));
    assert_eq!(left.protocol.next_rx_sid, Some(Sid::new(1)));
    let ack = left.pop_oldest().unwrap();
    assert_eq!(deserialize(ack), Ok((Event::Ack(Sid::new(0)), Sid::new(0))));
    assert_eq!(right.protocol.process_received_message(ack), None);
    assert!(right.protocol.sent.is_empty());
    assert_eq!(right.protocol.next_rx_sid, Some(Sid::new(1)));
}

#[test]
fn message_that_comes_twice_is_ignored() {
    let (_, mut left) = sides();
    let msg = serialize(Event::Press(0, 0), Sid::new(4)).unwrap();
    assert_eq!(left.protocol.process_received_message(msg), Some(Event::Press(0, 0)));
    let sent = left.protocol.hw.tx.len();
    assert_eq!(left.protocol.process_received_message(msg), None);
    assert_eq!(left.protocol.hw.tx.len(), sent);
    assert!(!left.protocol.is_on_error());
}

#[test]
fn corrupt_message_is_asked_for_again() {
    let (_, mut left) = sides();
    left.protocol.next_rx_sid = Some(Sid::new(7));
    assert_eq!(left.protocol.process_received_message(0xdead_beef), None);
    assert!(left.protocol.is_on_error());
    assert!(left.protocol.hw.on_error);
    let msg = left.pop_oldest().unwrap();
    assert_eq!(deserialize(msg), Ok((Event::Retransmit(Sid::new(7)), Sid::new(0))));
    // a retransmit uses up no id
    assert_eq!(left.protocol.next_tx_sid, Sid::new(0));
}

#[test]
fn corrupt_message_at_the_start_is_dropped() {
    let (_, mut left) = sides();
    assert_eq!(left.protocol.process_received_message(0xdead_beef), None);
    assert!(!left.protocol.is_on_error());
    assert_eq!(left.protocol.hw.tx.len(), 0);
}

#[test]
fn events_wait_while_there_is_an_error() {
    let (_, mut left) = sides();
    left.protocol.next_rx_sid = Some(Sid::new(7));
    left.protocol.process_received_message(0xdead_beef);
    left.protocol.hw.tx.clear();
    left.protocol.queue_event(Event::Press(0, 0));
    left.protocol.queue_event(Event::Release(0, 0));
    assert!(left.is_silent());
    // nothing is sent as long as the error lasts
    for _ in 0..5 {
        assert_eq!(left.protocol.run_once_continuous(None), None);
        left.protocol.send_next_queued();
    }
    assert!(left.is_silent());
    // the expected message resolves the error; its ack goes first
    let expected = serialize(Event::Press(3, 3), Sid::new(7)).unwrap();
    assert_eq!(left.protocol.run_once_continuous(Some(expected)), Some(Event::Press(3, 3)));
    assert!(!left.protocol.is_on_error());
    let ack = left.pop_oldest().unwrap();
    assert_eq!(deserialize(ack), Ok((Event::Ack(Sid::new(7)), Sid::new(0))));
    assert!(left.is_silent());
    left.protocol.run_once_continuous(None);
    let first = left.pop_oldest().unwrap();
    assert_eq!(deserialize(first), Ok((Event::Press(0, 0), Sid::new(1))));
    // the next one waits for the ack of the first
    left.protocol.run_once_continuous(None);
    left.protocol.run_once_continuous(None);
    assert!(left.is_silent());
    let ack = serialize(Event::Ack(Sid::new(1)), Sid::new(8)).unwrap();
    left.protocol.run_once_continuous(Some(ack));
    left.protocol.run_once_continuous(None);
    let second = left.pop_oldest().unwrap();
    assert_eq!(deserialize(second), Ok((Event::Release(0, 0), Sid::new(2))));
    left.protocol.run_once_continuous(None);
    assert!(left.is_silent());
}

#[test]
fn queued_acks_do_not_hold_the_others_back() {
    let (mut right, _) = sides();
    right.protocol.send_event(Event::Ack(Sid::new(3)));
    right.protocol.send_event(Event::Press(0, 0));
    right.protocol.send_event(Event::Press(0, 1));
    let sent: Vec<Message> = right.protocol.hw.tx.drain(..).collect();
    let again = serialize(Event::Retransmit(Sid::new(0)), Sid::new(9)).unwrap();
    right.protocol.run_once_continuous(Some(again));
    // the ack goes at once and is not acknowledged: the next one follows
    assert_eq!(right.pop_oldest(), Some(sent[0]));
    right.protocol.run_once_continuous(None);
    assert_eq!(right.pop_oldest(), Some(sent[1]));
    right.protocol.run_once_continuous(None);
    assert!(right.is_silent());
}

#[test]
fn retransmit_is_answered_while_there_is_an_error() {
    let (mut right, _) = sides();
    right.protocol.next_rx_sid = Some(Sid::new(7));
    right.protocol.send_event(Event::Press(1, 1));
    right.protocol.send_event(Event::Press(1, 2));
    let sent: Vec<Message> = right.protocol.hw.tx.drain(..).collect();
    right.protocol.run_once_continuous(Some(0xdead_beef));
    right.protocol.hw.tx.clear();
    let again = serialize(Event::Retransmit(Sid::new(0)), Sid::new(7)).unwrap();
    right.protocol.run_once_continuous(Some(again));
    assert_eq!(right.pop_oldest(), Some(sent[0]));
    assert!(right.protocol.is_on_error());
    right.protocol.run_once_continuous(None);
    assert!(right.is_silent());
}

#[test]
fn sides_agree_again() {
    // with messages to send again, with events that wait, and with nothing but a ping
    for (sent, waiting) in [(3u8, 0u8), (0, 2), (0, 0), (2, 2)] {
        let (mut a, mut b) = sides();
        a.protocol.next_tx_sid = Sid::new(4);
        b.protocol.next_rx_sid = Some(Sid::new(6));
        for n in 0..sent {
            a.protocol.send_event(Event::SeedRng(n));
        }
        a.protocol.retransmit_on_going = true;
        for n in 0..waiting {
            a.protocol.queue_event(Event::SeedRng(100 + n));
        }
        b.protocol.process_received_message(0xdead_beef);
        let ask = b.pop_oldest().unwrap();
        assert_eq!(deserialize(ask).unwrap().0, Event::Retransmit(Sid::new(6)));
        a.protocol.process_received_message(ask);
        let answer = *a.protocol.hw.tx.last().unwrap();
        b.protocol.process_received_message(answer);
        assert_eq!(b.protocol.next_rx_sid, Some(a.protocol.next_tx_sid));
        assert!(!b.protocol.is_on_error());
    }
}

#[test]
fn nothing_is_lost() {
    let (mut right, mut left) = sides();
    right.protocol.queue_event(Event::Press(0, 0));
    communicate(&mut right, &mut left, 10);
    // the first of four messages is lost, the others come too early
    for n in 1..5u8 {
        right.protocol.queue_event(Event::SeedRng(n));
    }
    right.pop_oldest().unwrap();
    assert_eq!(
        settle(&mut right, &mut left),
        vec![
            Event::SeedRng(1),
            Event::SeedRng(2),
            Event::SeedRng(3),
            Event::SeedRng(4)
        ]
    );
    assert!(is_synced(&right, &left));
}

#[test]
fn hardware_is_told_once_of_an_error() {
    let (_, mut left) = sides();
    left.protocol.next_rx_sid = Some(Sid::new(7));
    left.protocol.process_received_message(0xdead_beef);
    left.protocol.process_received_message(0xdead_beef);
    assert_eq!(left.protocol.hw.take_commands(), vec![AnimCommand::Error]);
    let expected = serialize(Event::Press(3, 3), Sid::new(7)).unwrap();
    left.protocol.process_received_message(expected);
    assert_eq!(left.protocol.hw.take_commands(), vec![]);
}

#[test]
fn queue_holds_sixty_four_events() {
    let (_, mut left) = sides();
    left.protocol.retransmit_on_going = true;
    for n in 0..70u8 {
        left.protocol.queue_event(Event::SeedRng(n));
    }
    left.protocol.retransmit_on_going = false;
    for n in 0..64u8 {
        left.protocol.send_next_queued();
        let msg = left.pop_oldest().unwrap();
        let (event, sid) = deserialize(msg).unwrap();
        assert_eq!(event, Event::SeedRng(n));
        let ack = serialize(Event::Ack(sid), Sid::new(n % 32)).unwrap();
        left.protocol.process_received_message(ack);
    }
    left.protocol.send_next_queued();
    assert!(left.is_silent());
}

#[test]
fn retransmit_sends_the_same_messages_again() {
    let (mut right, _) = sides();
    for n in 0..4u8 {
        right.protocol.send_event(Event::SeedRng(n));
    }
    let sent: Vec<Message> = right.protocol.hw.tx.drain(..).collect();
    let again = serialize(Event::Retransmit(Sid::new(1)), Sid::new(9)).unwrap();
    assert!(right.protocol.accepts(again));
    assert_eq!(right.protocol.process_received_message(again), None);
    for n in 1..3u8 {
        let ack = serialize(Event::Ack(Sid::new(n)), Sid::new(8 + n)).unwrap();
        assert_eq!(right.protocol.process_received_message(ack), None);
        right.protocol.send_next_queued();
    }
    let resent: Vec<Message> = right.protocol.hw.tx.drain(..).collect();
    assert_eq!(resent, sent[1..]);
}

#[test]
fn retransmit_of_nothing_sends_a_ping() {
    let (mut right, _) = sides();
    right.protocol.send_event(Event::Ping);
    right.protocol.hw.tx.clear();
    let again = serialize(Event::Retransmit(Sid::new(5)), Sid::new(9)).unwrap();
    right.protocol.process_received_message(again);
    let msg = right.pop_oldest().unwrap();
    assert_eq!(deserialize(msg), Ok((Event::Ping, Sid::new(5))));
}

#[test]
fn messages_with_ids_out_of_range_are_not_accepted() {
    let (right, _) = sides();
    let sid = Sid::new(0);
    assert!(!right.protocol.accepts(serialize(Event::Retransmit(Sid::new(32)), sid).unwrap()));
    assert!(!right.protocol.accepts(serialize(Event::Ack(Sid::new(200)), sid).unwrap()));
    assert!(right.protocol.accepts(serialize(Event::Ack(Sid::new(31)), sid).unwrap()));
    assert!(right.protocol.accepts(0));
}

#[test]
fn retransmit_is_not_accepted_without_room() {
    let (mut right, _) = sides();
    right.protocol.send_event(Event::Press(0, 0));
    right.protocol.retransmit_on_going = true;
    for _ in 0..64 {
        right.protocol.queue_event(Event::Press(0, 1));
    }
    let again = serialize(Event::Retransmit(Sid::new(0)), Sid::new(0)).unwrap();
    assert!(!right.protocol.accepts(again));
    right.protocol.retransmit_on_going = false;
    right.protocol.send_next_queued();
    assert!(!right.protocol.accepts(again));
}

#[test]
fn receive_stops_at_the_first_event() {
    let (_, mut left) = sides();
    let msgs = [
        serialize(Event::Ping, Sid::new(0)).unwrap(),
        serialize(Event::Press(2, 2), Sid::new(1)).unwrap(),
        serialize(Event::Release(2, 2), Sid::new(2)).unwrap(),
    ];
    assert_eq!(left.protocol.receive(&msgs), (Some(Event::Press(2, 2)), 2));
    assert_eq!(left.protocol.receive(&msgs[2..]), (Some(Event::Release(2, 2)), 1));
    assert_eq!(left.protocol.receive(&[]), (None, 0));
    assert_eq!(left.protocol.name, "left");
}

#[test]
fn event_of_a_message_out_of_turn_is_none() {
    let (_, mut left) = sides();
    let msg = serialize(Event::Press(2, 2), Sid::new(1)).unwrap();
    assert_eq!(left.protocol.event_of_message(msg), Some(Event::Press(2, 2)));
    left.protocol.next_rx_sid = Some(Sid::new(2));
    assert_eq!(left.protocol.event_of_message(msg), None);
    assert_eq!(left.protocol.event_of_message(1), None);
}

#[test]
fn events_arrive_in_order() {
    let (mut right, mut left) = sides();
    let events: Vec<Event> = (0..100).map(Event::SeedRng).collect();
    let mut got = vec![];
    for event in &events {
        right.protocol.queue_event(*event);
        let (_, to_left) = communicate(&mut right, &mut left, 10);
        got.extend(to_left);
        assert!(is_synced(&right, &left));
    }
    assert_eq!(got, events);
}

#[test]
fn lost_message_is_recovered() {
    let (mut right, mut left) = sides();
    right.protocol.queue_event(Event::Press(0, 0));
    communicate(&mut right, &mut left, 10);
    right.protocol.queue_event(Event::Press(1, 1));
    right.pop_oldest().unwrap();
    right.protocol.queue_event(Event::Press(2, 2));
    let to_left = settle(&mut right, &mut left);
    assert_eq!(to_left, vec![Event::Press(1, 1), Event::Press(2, 2)]);
    assert!(is_synced(&right, &left));
}

#[test]
fn ack_frees_its_slot() {
    let (mut right, _) = sides();
    right.protocol.send_event(Event::Press(0, 0));
    right.protocol.send_event(Event::Press(1, 1));
    let ack = serialize(Event::Ack(Sid::new(1)), Sid::new(8)).unwrap();
    assert_eq!(right.protocol.process_received_message(ack), None);
    assert!(right.protocol.sent.get(Sid::new(0)).is_some());
    assert!(right.protocol.sent.get(Sid::new(1)).is_none());
    assert_eq!(right.protocol.next_rx_sid, Some(Sid::new(9)));
}
