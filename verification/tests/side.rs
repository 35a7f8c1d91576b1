use cnano_rs::board::Board;
use cnano_rs::keys::KeyEvent;
use cnano_rs::protocol::Hardware;
use cnano_rs::rgb_anims::RgbAnimType;
use cnano_rs::rgb_leds::AnimCommand;
use cnano_rs::serde::{deserialize, serialize, Event};
use cnano_rs::sid::Sid;
use cnano_rs::side::{
    process_event, received_message, status_led_is_high, word_to_send, HwProtocol, SideAction,
    SidesComms, Stats, KEEPALIVE,
};

#[test]
fn leds_are_told_of_changes_of_the_error() {
    let mut hw = HwProtocol::new();
    hw.set_error_state(false);
    assert_eq!(hw.take_commands(), vec![]);
    hw.set_error_state(true);
    hw.set_error_state(true);
    hw.set_error_state(false);
    assert_eq!(hw.take_commands(), vec![AnimCommand::Error, AnimCommand::Fixed]);
    assert_eq!(hw.take_commands(), vec![]);
}

#[test]
fn messages_are_taken_in_order() {
    let mut hw = HwProtocol::new();
    hw.queue_send(1);
    hw.queue_send(2);
    assert_eq!(hw.take_messages(), vec![1, 2]);
    assert!(hw.take_messages().is_empty());
}

#[test]
fn keepalive_fills_the_gaps() {
    assert_eq!(word_to_send(Some(7)), 7);
    assert_eq!(word_to_send(None), KEEPALIVE);
    assert_eq!(received_message(KEEPALIVE), None);
    let msg = serialize(Event::Noop, Sid::new(0)).unwrap();
    assert_eq!(received_message(msg), Some(msg));
}

#[test]
fn events_are_dispatched() {
    let sid = Sid::new(0);
    for (event, action) in [
        (Event::Noop, None),
        (Event::Ping, None),
        (Event::Ack(sid), None),
        (Event::Retransmit(sid), None),
        (Event::Press(1, 2), Some(SideAction::Layout(KeyEvent::Press(1, 2)))),
        (Event::Release(1, 2), Some(SideAction::Layout(KeyEvent::Release(1, 2)))),
        (
            Event::RgbAnim(RgbAnimType::Wheel),
            Some(SideAction::Anim(AnimCommand::SetAnim(RgbAnimType::Wheel))),
        ),
        (
            Event::RgbAnimChangeLayer(4),
            Some(SideAction::Anim(AnimCommand::ChangeLayer(4))),
        ),
    ] {
        assert_eq!(process_event(event), action);
    }
}

#[test]
fn status_led_levels() {
    assert!(!status_led_is_high(Board::Cnano, true));
    assert!(status_led_is_high(Board::Cnano, false));
    assert!(status_led_is_high(Board::Dilemma, true));
    assert!(!status_led_is_high(Board::Dilemma, false));
}

#[test]
fn events_travel_between_the_sides() {
    let mut right = SidesComms::new("Right", HwProtocol::new(), 0);
    let mut left = SidesComms::new("Left", HwProtocol::new(), 0);
    left.on_local_event(Event::Press(2, 3));
    let msgs = left.protocol.hw.take_messages();
    assert_eq!(msgs.len(), 1);
    assert!(right.accepts(msgs[0]));
    assert_eq!(
        right.on_message(msgs[0]),
        Some(SideAction::Layout(KeyEvent::Press(2, 3)))
    );
    let acks = right.protocol.hw.take_messages();
    assert_eq!(deserialize(acks[0]), Ok((Event::Ack(Sid::new(0)), Sid::new(0))));
    assert_eq!(left.on_message(acks[0]), None);
    assert!(left.protocol.sent.is_empty());
    assert_eq!(left.stats.sent_real, 1);
    assert_eq!(right.stats.received_real, 1);
    assert_eq!(left.stats.received_real, 0);
}

#[test]
fn seeds_are_not_accepted() {
    let comms = SidesComms::new("Right", HwProtocol::new(), 0);
    assert!(!comms.accepts(serialize(Event::SeedRng(1), Sid::new(0)).unwrap()));
    assert!(!comms.accepts(serialize(Event::Retransmit(Sid::new(99)), Sid::new(0)).unwrap()));
    assert!(comms.accepts(serialize(Event::Press(0, 0), Sid::new(0)).unwrap()));
}

#[test]
fn statistics_are_told_every_five_seconds() {
    let mut comms = SidesComms::new("Right", HwProtocol::new(), 1000);
    comms.on_local_event(Event::Noop);
    comms.on_local_event(Event::Press(0, 0));
    comms.on_local_event(Event::Release(0, 0));
    assert_eq!(comms.report_stats(5999), None);
    assert_eq!(
        comms.report_stats(6000),
        Some(Stats {
            sent_real: 2,
            sent_noop: 1,
            received_real: 0,
            received_noop: 0
        })
    );
    assert_eq!(comms.stats.sent_real, 0);
    assert_eq!(comms.stats_last_report, 6000);
}

#[test]
fn errors_are_shown() {
    let mut comms = SidesComms::new("Right", HwProtocol::new(), 0);
    comms.on_message(serialize(Event::Press(0, 0), Sid::new(0)).unwrap());
    comms.on_message(0x1234_5678);
    assert_eq!(comms.protocol.hw.take_commands(), vec![AnimCommand::Error]);
    comms.on_message(0x1234_5679);
    assert_eq!(comms.protocol.hw.take_commands(), vec![]);
}
