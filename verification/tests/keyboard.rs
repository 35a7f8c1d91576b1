use cnano_rs::board::Board;
use cnano_rs::hid::{ConsumerReport, KeyboardReport};
use cnano_rs::keyboard::{
    generate_hid_reports, keyboard_report_set_error, Core, CoreAction, CustomEvent, KeyCode,
    LayoutEvent, AUTO_MOUSE_TIMEOUT,
};
use cnano_rs::keys::KeyEvent;
use cnano_rs::mouse::MouseMove;
use cnano_rs::rgb_leds::AnimCommand;
use cnano_rs::serde::Event;
use cnano_rs::trackball::SensorCommand;

fn codes(kcs: &[u8]) -> Vec<KeyCode> {
    kcs.iter().map(|kc| KeyCode(*kc)).collect()
}

#[test]
fn keys_fill_the_report() {
    let (kb, consumer) = generate_hid_reports(&codes(&[4, 5, 0, 6]));
    assert_eq!(kb.modifier, 0);
    assert_eq!(kb.keycodes, [4, 5, 6, 0, 0, 0]);
    assert_eq!(consumer.usage, 0);
}

#[test]
fn too_many_keys_are_an_error() {
    let (kb, _) = generate_hid_reports(&codes(&[4, 5, 6, 7, 8, 9]));
    assert_eq!(kb.keycodes, [4, 5, 6, 7, 8, 9]);
    let (kb, _) = generate_hid_reports(&codes(&[0xe0, 4, 5, 6, 7, 8, 9, 10]));
    assert_eq!(kb.modifier, 0);
    assert_eq!(kb.keycodes, [1; 6]);
}

#[test]
fn error_codes_fill_the_report() {
    let (kb, _) = generate_hid_reports(&codes(&[0xe1, 4, 2]));
    assert_eq!(kb.modifier, 0);
    assert_eq!(kb.keycodes, [2; 6]);
    let mut report = KeyboardReport {
        modifier: 7,
        keycodes: [9; 6],
    };
    keyboard_report_set_error(&mut report, 3);
    assert_eq!((report.modifier, report.keycodes), (0, [3; 6]));
}

#[test]
fn modifiers_set_their_bits() {
    let (kb, _) = generate_hid_reports(&codes(&[0xe0, 0xe7, 0xe2, 4]));
    assert_eq!(kb.modifier, 0b1000_0101);
    assert_eq!(kb.keycodes, [4, 0, 0, 0, 0, 0]);
}

#[test]
fn media_keys_have_a_usage() {
    for (kc, usage) in [
        (0xeb, 0xb5),
        (0xea, 0xb6),
        (0xe8, 0xcd),
        (0x7f, 0xe2),
        (0x80, 0xe9),
        (0x81, 0xea),
        (0xf0, 0),
    ] {
        let (kb, consumer) = generate_hid_reports(&codes(&[kc]));
        assert_eq!(consumer.usage, usage);
        assert_eq!(kb.keycodes, [0; 6]);
    }
}

#[test]
fn reports_are_sent_when_they_change() {
    let mut core = Core::new(Board::Cnano);
    assert_eq!(core.tick_layout(LayoutEvent::NoEvent, &codes(&[]), 0), vec![]);
    let report = KeyboardReport {
        modifier: 2,
        keycodes: [4, 0, 0, 0, 0, 0],
    };
    assert_eq!(
        core.tick_layout(LayoutEvent::NoEvent, &codes(&[4, 0xe1]), 0),
        vec![CoreAction::Keyboard(report)]
    );
    assert_eq!(core.tick_layout(LayoutEvent::NoEvent, &codes(&[4, 0xe1]), 0), vec![]);
    assert_eq!(
        core.tick_layout(LayoutEvent::NoEvent, &codes(&[4, 0xe1, 0x7f]), 0),
        vec![CoreAction::Consumer(ConsumerReport { usage: 0xe2 })]
    );
    assert_eq!(
        core.tick_layout(LayoutEvent::NoEvent, &codes(&[]), 0),
        vec![
            CoreAction::Keyboard(KeyboardReport::default()),
            CoreAction::Consumer(ConsumerReport { usage: 0 })
        ]
    );
}

#[test]
fn layers_change_the_color_on_both_halves() {
    let mut core = Core::new(Board::Cnano);
    assert_eq!(
        core.tick_layout(LayoutEvent::NoEvent, &codes(&[]), 3),
        vec![
            CoreAction::Side(Event::RgbAnimChangeLayer(3)),
            CoreAction::Anim(AnimCommand::ChangeLayer(3))
        ]
    );
    assert_eq!(core.tick_layout(LayoutEvent::NoEvent, &codes(&[]), 3), vec![]);
    assert_eq!(core.current_layer, 3);
    // the color of a layer is its lowest byte
    assert_eq!(core.tick_layout(LayoutEvent::NoEvent, &codes(&[]), 259), vec![]);
    assert_eq!((core.current_layer, core.color_layer), (259, 3));
}

#[test]
fn custom_events_ask_for_actions() {
    let mut core = Core::new(Board::Cnano);
    for (event, action) in [
        (CustomEvent::IncreaseCpi, Some(CoreAction::Sensor(SensorCommand::IncreaseCpi))),
        (CustomEvent::DecreaseCpi, Some(CoreAction::Sensor(SensorCommand::DecreaseCpi))),
        (CustomEvent::NextLedAnimation, Some(CoreAction::Anim(AnimCommand::Next))),
        (CustomEvent::ResetToUsbMassStorage, Some(CoreAction::ResetToUsbBoot)),
        (CustomEvent::NoMouseAction, None),
        (CustomEvent::MouseLeftClick, None),
    ] {
        assert_eq!(core.process_custom_event(LayoutEvent::Press(event)), action);
        assert_eq!(core.process_custom_event(LayoutEvent::Release(event)), None);
    }
    assert_eq!(core.process_custom_event(LayoutEvent::NoEvent), None);
}

#[test]
fn custom_events_drive_the_mouse() {
    let mut core = Core::new(Board::Dilemma);
    core.process_custom_event(LayoutEvent::Press(CustomEvent::MouseLeftClick));
    core.process_custom_event(LayoutEvent::Press(CustomEvent::MouseRightClick));
    core.process_custom_event(LayoutEvent::Press(CustomEvent::MouseWheelClick));
    assert!(core.mouse.left_click && core.mouse.right_click && core.mouse.wheel_click);
    core.process_custom_event(LayoutEvent::Release(CustomEvent::MouseLeftClick));
    core.process_custom_event(LayoutEvent::Release(CustomEvent::MouseRightClick));
    core.process_custom_event(LayoutEvent::Release(CustomEvent::MouseWheelClick));
    assert!(!core.mouse.left_click && !core.mouse.right_click && !core.mouse.wheel_click);
    core.process_custom_event(LayoutEvent::Press(CustomEvent::BallIsWheel));
    assert!(core.mouse.ball_is_wheel);
    core.process_custom_event(LayoutEvent::Release(CustomEvent::BallIsWheel));
    assert!(!core.mouse.ball_is_wheel);
    core.process_custom_event(LayoutEvent::Press(CustomEvent::WheelUp));
    core.process_custom_event(LayoutEvent::Release(CustomEvent::WheelUp));
    assert_eq!(core.mouse.wheel, 1);
    core.process_custom_event(LayoutEvent::Press(CustomEvent::WheelDown));
    core.process_custom_event(LayoutEvent::Release(CustomEvent::WheelDown));
    assert_eq!(core.mouse.wheel, -1);
}

fn moved(dx: i16, dy: i16, pressure: u8) -> Option<MouseMove> {
    Some(MouseMove { dx, dy, pressure })
}

#[test]
fn mouse_is_active_for_a_while() {
    let press = CoreAction::Layout(KeyEvent::Press(3, 0));
    let release = CoreAction::Layout(KeyEvent::Release(3, 0));
    let mut core = Core::new(Board::Cnano);
    let (report, action) = core.tick_mouse(moved(1, 0, 0), true).unwrap();
    assert_eq!((report.x, action), (1, Some(press)));
    assert_eq!(core.tick_mouse(None, true), None);
    // moving again starts the timeout anew
    assert_eq!(core.tick_timeout(), None);
    let (_, action) = core.tick_mouse(moved(2, 0, 0), true).unwrap();
    assert_eq!(action, None);
    for _ in 1..AUTO_MOUSE_TIMEOUT {
        assert_eq!(core.tick_timeout(), None);
        assert!(core.mouse_active);
    }
    assert_eq!(core.tick_timeout(), Some(release));
    assert!(!core.mouse_active);
    assert_eq!(core.tick_timeout(), None);
}

#[test]
fn mouse_can_be_stopped() {
    let mut core = Core::new(Board::Cnano);
    core.tick_mouse(moved(1, 0, 0), true);
    assert_eq!(
        core.process_custom_event(LayoutEvent::Press(CustomEvent::NoMouseAction)),
        Some(CoreAction::Layout(KeyEvent::Release(3, 0)))
    );
    assert_eq!((core.mouse_active, core.auto_mouse_timeout), (false, 0));
}

#[test]
fn scrolling_is_no_activity_but_pressure_is() {
    let mut core = Core::new(Board::Dilemma);
    core.process_custom_event(LayoutEvent::Press(CustomEvent::WheelUp));
    let (report, action) = core.tick_mouse(None, true).unwrap();
    assert_eq!((report.wheel, action), (1, None));
    assert!(!core.mouse_active);
    let (_, action) = core.tick_mouse(moved(0, 0, 26), true).unwrap();
    assert_eq!(action, None);
    let (_, action) = core.tick_mouse(moved(0, 0, 27), true).unwrap();
    assert!(action.is_some());
    assert!(core.mouse_active);
    // not on the host side
    let mut other = Core::new(Board::Cnano);
    assert_eq!(other.tick_mouse(moved(1, 0, 0), false), None);
    assert!(!other.mouse_active);
}

#[test]
fn clicks_are_activity() {
    let mut core = Core::new(Board::Cnano);
    core.process_custom_event(LayoutEvent::Press(CustomEvent::MouseLeftClick));
    let (report, action) = core.tick_mouse(None, true).unwrap();
    assert_eq!(report.buttons, 1);
    assert!(action.is_some());
}
