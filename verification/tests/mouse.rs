use cnano_rs::board::Board;
use cnano_rs::hid::MouseReport;
use cnano_rs::mouse::{MouseHandler, MouseMove};

fn moved(dx: i16, dy: i16, pressure: u8) -> Option<MouseMove> {
    Some(MouseMove { dx, dy, pressure })
}

#[test]
fn moves_are_reported() {
    let mut mouse = MouseHandler::new();
    assert_eq!(mouse.tick(Board::Cnano, None, true), None);
    let report = MouseReport {
        buttons: 0,
        x: 3,
        y: -4,
        wheel: 0,
        pan: 0,
    };
    assert_eq!(mouse.tick(Board::Cnano, moved(3, -4, 0), true), Some((report, false)));
    assert_eq!(mouse.tick(Board::Cnano, None, true), None);
}

#[test]
fn moves_wait_for_the_host() {
    let mut mouse = MouseHandler::new();
    assert_eq!(mouse.tick(Board::Cnano, moved(3, -4, 0), false), None);
    let (report, _) = mouse.tick(Board::Cnano, None, true).unwrap();
    assert_eq!((report.x, report.y), (3, -4));
}

#[test]
fn clicks_are_reported() {
    let mut mouse = MouseHandler::new();
    mouse.on_left_click(true);
    mouse.on_right_click(true);
    mouse.on_middle_click(true);
    assert_eq!(mouse.tick(Board::Cnano, None, true).unwrap().0.buttons, 7);
    mouse.on_right_click(false);
    assert_eq!(mouse.tick(Board::Cnano, None, true).unwrap().0.buttons, 5);
    mouse.on_left_click(false);
    mouse.on_middle_click(false);
    assert_eq!(mouse.tick(Board::Cnano, None, true).unwrap().0.buttons, 0);
}

#[test]
fn ball_as_wheel() {
    let mut mouse = MouseHandler::new();
    mouse.on_ball_is_wheel(true);
    mouse.on_left_click(true);
    for (dy, wheel) in [(17, -1), (16, 0), (0, 0), (-16, 0), (-17, 1)] {
        let report = MouseReport {
            buttons: 0,
            x: 0,
            y: 0,
            wheel,
            pan: 0,
        };
        assert_eq!(mouse.tick(Board::Cnano, moved(5, dy, 0), true), Some((report, false)));
    }
    mouse.on_ball_is_wheel(false);
    let (report, _) = mouse.tick(Board::Cnano, None, true).unwrap();
    assert_eq!((report.x, report.y, report.buttons), (5, -17, 1));
}

#[test]
fn wheel_is_reset_on_every_tick() {
    let mut mouse = MouseHandler::new();
    mouse.on_wheel(true);
    assert_eq!(mouse.tick(Board::Dilemma, None, true).unwrap().0.wheel, 1);
    assert_eq!(mouse.wheel, 0);
    mouse.on_wheel(false);
    assert_eq!(mouse.tick(Board::Dilemma, None, true).unwrap().0.wheel, -1);
    mouse.on_wheel(true);
    assert_eq!(mouse.tick(Board::Dilemma, None, false), None);
    assert_eq!(mouse.wheel, 0);
}

#[test]
fn trackpad_needs_pressure() {
    let mut mouse = MouseHandler::new();
    assert_eq!(mouse.tick(Board::Dilemma, moved(1, 1, 9), true), None);
    let (_, has_pressure) = mouse.tick(Board::Dilemma, moved(1, 1, 10), true).unwrap();
    assert!(!has_pressure);
    let (_, has_pressure) = mouse.tick(Board::Dilemma, moved(1, 1, 26), true).unwrap();
    assert!(!has_pressure);
    let (_, has_pressure) = mouse.tick(Board::Dilemma, moved(1, 1, 27), true).unwrap();
    assert!(has_pressure);
    // the wheel counts only if the pad is not touched
    mouse.tick(Board::Dilemma, moved(0, 0, 5), true);
    mouse.on_wheel(true);
    assert_eq!(mouse.tick(Board::Dilemma, None, true), None);
}
