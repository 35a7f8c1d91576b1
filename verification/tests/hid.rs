use cnano_rs::hid::{
    outgoing_kb_report, ConsumerReport, HidRequestHandler, KeyboardReport, MouseReport, ReportId,
    KB_REPORT_DESCRIPTOR, MOUSE_REPORT_DESCRIPTOR,
};
use cnano_rs::keys::KeyEvent;

#[test]
fn keyboard_report_bytes() {
    let report = KeyboardReport {
        modifier: 0x22,
        keycodes: [1, 2, 3, 4, 5, 6],
    };
    assert_eq!(report.serialize(), [0x22, 0, 1, 2, 3, 4, 5, 6]);
    assert_eq!(KeyboardReport::default().serialize(), [0; 8]);
    assert!(report.is_same(&report));
    assert!(!report.is_same(&KeyboardReport::default()));
    assert_eq!(ConsumerReport::default().usage, 0);
}

#[test]
fn mouse_report_bytes() {
    let report = MouseReport {
        buttons: 5,
        x: -2,
        y: 0x1234,
        wheel: -1,
        pan: 3,
    };
    assert_eq!(report.serialize(), [5, 0xfe, 0xff, 0x34, 0x12, 0xff, 3]);
    assert_eq!(MouseReport::default().serialize(), [0; 7]);
}

#[test]
fn lock_leds_tap_keys() {
    let mut handler = HidRequestHandler::new();
    assert_eq!(handler.set_report(ReportId::Out(0), &[0]), vec![]);
    // NumLock is on column 1, row 3
    assert_eq!(
        handler.set_report(ReportId::Out(0), &[1]),
        vec![KeyEvent::Press(3, 1), KeyEvent::Release(3, 1)]
    );
    assert_eq!(handler.set_report(ReportId::Out(0), &[1]), vec![]);
    // CapsLock is on column 0, row 3
    assert_eq!(
        handler.set_report(ReportId::Out(0), &[3]),
        vec![KeyEvent::Press(3, 0), KeyEvent::Release(3, 0)]
    );
    assert_eq!(
        handler.set_report(ReportId::Out(0), &[0xfc]),
        vec![
            KeyEvent::Press(3, 1),
            KeyEvent::Release(3, 1),
            KeyEvent::Press(3, 0),
            KeyEvent::Release(3, 0)
        ]
    );
    assert!(!handler.num_lock && !handler.caps_lock);
}

#[test]
fn other_reports_are_ignored() {
    let mut handler = HidRequestHandler::new();
    assert_eq!(handler.set_report(ReportId::Out(1), &[3]), vec![]);
    assert_eq!(handler.set_report(ReportId::In(0), &[3]), vec![]);
    assert_eq!(handler.set_report(ReportId::Feature(0), &[]), vec![]);
    assert!(!handler.num_lock && !handler.caps_lock);
}

#[test]
fn only_the_host_side_sends_reports() {
    let report = KeyboardReport {
        modifier: 1,
        keycodes: [9, 0, 0, 0, 0, 0],
    };
    assert_eq!(outgoing_kb_report(&report, true), Some([1, 0, 9, 0, 0, 0, 0, 0]));
    assert_eq!(outgoing_kb_report(&report, false), None);
}

#[test]
fn descriptors_are_complete() {
    assert_eq!(KB_REPORT_DESCRIPTOR[..4], [0x05, 0x01, 0x09, 0x06]);
    assert_eq!(KB_REPORT_DESCRIPTOR[68], 0xc0);
    assert_eq!(MOUSE_REPORT_DESCRIPTOR[..4], [0x05, 0x01, 0x09, 0x02]);
    assert_eq!(MOUSE_REPORT_DESCRIPTOR[85..], [0xc0, 0xc0]);
}
