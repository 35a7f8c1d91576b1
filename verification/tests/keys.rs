use cnano_rs::board::Board;
use cnano_rs::keys::{
    matrix_state_new, place_of_key, route_event, KeyAction, KeyEvent, MatrixScanner, NB_BOUNCE,
};
use cnano_rs::serde::Event;

#[test]
fn new_matrix_state_has_no_key() {
    assert_eq!(matrix_state_new(), [[false; 5]; 4]);
}

#[test]
fn places_of_the_keys() {
    assert_eq!(place_of_key(Board::Cnano, true, 0, 0), Some((0, 9)));
    assert_eq!(place_of_key(Board::Cnano, true, 2, 4), Some((2, 5)));
    assert_eq!(place_of_key(Board::Cnano, false, 1, 3), Some((1, 3)));
    assert_eq!(place_of_key(Board::Cnano, true, 3, 0), Some((3, 5)));
    assert_eq!(place_of_key(Board::Cnano, true, 3, 2), Some((3, 6)));
    assert_eq!(place_of_key(Board::Cnano, true, 3, 1), None);
    assert_eq!(place_of_key(Board::Cnano, false, 3, 0), Some((3, 4)));
    assert_eq!(place_of_key(Board::Cnano, false, 3, 2), Some((3, 2)));
    assert_eq!(place_of_key(Board::Cnano, false, 3, 3), Some((3, 3)));
    assert_eq!(place_of_key(Board::Cnano, false, 3, 4), None);
    assert_eq!(place_of_key(Board::Dilemma, true, 3, 0), Some((3, 6)));
    assert_eq!(place_of_key(Board::Dilemma, true, 3, 1), Some((3, 5)));
    assert_eq!(place_of_key(Board::Dilemma, true, 3, 2), None);
    assert_eq!(place_of_key(Board::Dilemma, false, 3, 0), Some((3, 3)));
    assert_eq!(place_of_key(Board::Dilemma, false, 3, 1), Some((3, 4)));
    assert_eq!(place_of_key(Board::Dilemma, false, 3, 2), Some((3, 2)));
    assert_eq!(place_of_key(Board::Dilemma, false, 3, 3), None);
    assert_eq!(place_of_key(Board::Cnano, true, 4, 0), None);
    assert_eq!(place_of_key(Board::Cnano, true, 0, 5), None);
}

#[test]
fn events_go_to_the_host_side() {
    let press = KeyEvent::Press(1, 2);
    let release = KeyEvent::Release(1, 2);
    assert_eq!(route_event(press, true), KeyAction::Layout(press));
    assert_eq!(route_event(press, false), KeyAction::Side(Event::Press(1, 2)));
    assert_eq!(route_event(release, false), KeyAction::Side(Event::Release(1, 2)));
}

#[test]
fn keys_are_debounced() {
    let mut scanner = MatrixScanner::new(Board::Cnano, false, false);
    let mut scan = matrix_state_new();
    scan[1][2] = true;
    for _ in 0..NB_BOUNCE {
        assert_eq!(scanner.debounce(scan), vec![]);
    }
    assert_eq!(scanner.debounce(scan), vec![KeyEvent::Press(1, 2)]);
    assert_eq!(scanner.debounce(scan), vec![]);
    scan[1][2] = false;
    scan[0][4] = true;
    for _ in 0..NB_BOUNCE {
        assert_eq!(scanner.debounce(scan), vec![]);
    }
    assert_eq!(
        scanner.debounce(scan),
        vec![KeyEvent::Press(0, 4), KeyEvent::Release(1, 2)]
    );
}

#[test]
fn bounces_are_filtered() {
    let mut scanner = MatrixScanner::new(Board::Cnano, false, false);
    let mut scan = matrix_state_new();
    for n in 0..50 {
        scan[0][0] = n % 3 == 0;
        assert_eq!(scanner.debounce(scan), vec![]);
    }
}

#[test]
fn scans_lead_to_actions() {
    let mut scanner = MatrixScanner::new(Board::Cnano, true, false);
    let mut scan = matrix_state_new();
    scan[0][0] = true;
    scan[3][2] = true;
    for _ in 0..NB_BOUNCE {
        assert_eq!(scanner.step(scan, true, None), Some(vec![]));
    }
    assert_eq!(
        scanner.step(scan, true, None),
        Some(vec![
            KeyAction::Layout(KeyEvent::Press(0, 9)),
            KeyAction::Layout(KeyEvent::Press(3, 6))
        ])
    );
    scan[0][0] = false;
    for _ in 0..NB_BOUNCE {
        assert_eq!(scanner.step(scan, false, None), Some(vec![]));
    }
    assert_eq!(
        scanner.step(scan, false, None),
        Some(vec![KeyAction::Side(Event::Release(0, 9))])
    );
}

#[test]
fn keys_that_are_not_wired_are_noticed() {
    let mut scanner = MatrixScanner::new(Board::Cnano, true, false);
    let mut scan = matrix_state_new();
    scan[3][1] = true;
    for _ in 0..NB_BOUNCE {
        assert_eq!(scanner.step(scan, true, None), Some(vec![]));
    }
    assert_eq!(scanner.step(scan, true, None), None);
}

#[test]
fn encoder_taps_keys() {
    let scan = matrix_state_new();
    let mut scanner = MatrixScanner::new(Board::Dilemma, true, false);
    assert_eq!(scanner.step(scan, true, Some((false, true))), Some(vec![]));
    assert_eq!(
        scanner.step(scan, true, Some((true, false))),
        Some(vec![
            KeyAction::Layout(KeyEvent::Press(3, 8)),
            KeyAction::Layout(KeyEvent::Release(3, 8))
        ])
    );
    assert_eq!(
        scanner.step(scan, true, Some((false, false))),
        Some(vec![
            KeyAction::Layout(KeyEvent::Press(3, 9)),
            KeyAction::Layout(KeyEvent::Release(3, 9))
        ])
    );
    // not on the host side, and the level is not taken
    assert_eq!(scanner.step(scan, false, Some((true, false))), Some(vec![]));
    assert!(!scanner.last_pin_a);
    let mut left = MatrixScanner::new(Board::Dilemma, false, false);
    assert_eq!(left.step(scan, true, Some((true, false))), Some(vec![]));
    let mut nano = MatrixScanner::new(Board::Cnano, true, false);
    assert_eq!(nano.step(scan, true, Some((true, false))), Some(vec![]));
}
