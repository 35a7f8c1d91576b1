use cnano_rs::mouse::MouseMove;
use cnano_rs::trackpad::driver;
use cnano_rs::trackpad::modes::{Overlay, PositionMode, Reading, Trackpad, TransformMode};
use cnano_rs::trackpad::{
    era_address_bytes, rap_read_command, rap_write_command, saturating_i16_to_i8, MoveFilter,
};

type Pad = driver::Trackpad<35>;

/// A packet in absolute mode
fn packet(x: u16, y: u16, z: u8) -> [u8; 6] {
    [
        0,
        0,
        x as u8,
        y as u8,
        ((x >> 8) as u8) | (((y >> 8) as u8) << 4),
        z,
    ]
}

#[test]
fn saturation() {
    assert_eq!(saturating_i16_to_i8(-129), -128);
    assert_eq!(saturating_i16_to_i8(-128), -128);
    assert_eq!(saturating_i16_to_i8(5), 5);
    assert_eq!(saturating_i16_to_i8(128), 127);
    assert_eq!(saturating_i16_to_i8(i16::MIN), -128);
}

#[test]
fn commands() {
    assert_eq!(rap_read_command(0x12), [0xb2, 0xfc, 0xfc]);
    assert_eq!(rap_write_command(0x04), 0x84);
    assert_eq!(era_address_bytes(0x0187), (0x01, 0x87));
}

#[test]
fn absolute_packets() {
    let reading = Pad::read_data(&[0xff, 0, 0x34, 0x56, 0x21, 0xff]);
    assert_eq!(
        reading,
        driver::Reading {
            x: 0x134,
            y: 0x256,
            z: 0x3f,
            buttons: 0x3f,
            touch_down: true
        }
    );
    assert!(!Pad::read_data(&[0xff, 0, 0, 0, 0, 0xff]).touch_down);
}

#[test]
fn positions_are_scaled_to_the_pad() {
    let pad = Pad::new();
    assert_eq!(pad.scale, 1102);
    assert_eq!(driver::Reading::resolve_abs(0, 0), (0, 0));
    assert_eq!(driver::Reading::resolve_abs(127, 63), (0, 0));
    assert_eq!(driver::Reading::resolve_abs(1000, 1000), (873, 937));
    assert_eq!(driver::Reading::resolve_abs(4095, 4095), (1792, 1408));
    let scaled = pad.scale_reading(Pad::read_data(&packet(4095, 4095, 7)));
    assert_eq!((scaled.x, scaled.y, scaled.z), (1102, 1102, 7));
    let scaled = pad.scale_reading(Pad::read_data(&packet(127 + 896, 63 + 704, 7)));
    assert_eq!((scaled.x, scaled.y), (551, 551));
}

#[test]
fn moves_are_told_from_the_second_touch_on() {
    let mut pad = Pad::new();
    assert_eq!(pad.get_report(None), None);
    assert_eq!(pad.get_report(Some(packet(1000, 1000, 20))), Some((0, 0)));
    // 16 to the right is 9 counts, 16 down is 12
    let report = pad.get_report(Some(packet(1016, 1016, 20)));
    let x = (889 * 1102 / 1792) - (873 * 1102 / 1792);
    let y = (953 * 1102 / 1408) - (937 * 1102 / 1408);
    assert_eq!(report, Some((y as i8, -(x as i8))));
    assert_eq!((x, y), (10, 12));
    // lifted
    assert_eq!(pad.get_report(Some(packet(0, 0, 0))), Some((0, 0)));
    assert_eq!(pad.last_pos, None);
    assert_eq!(pad.get_report(Some(packet(1500, 1000, 20))), Some((0, 0)));
}

#[test]
fn large_moves_are_cut() {
    let mut pad = Pad::new();
    pad.movement(&packet(200, 100, 20));
    let m = pad.movement(&packet(1900, 1400, 20));
    assert_eq!((m.x, m.y, m.z, m.touch_down), (127, 127, 20, true));
    let m = pad.movement(&packet(200, 100, 20));
    assert_eq!((m.x, m.y), (-128, -128));
}

#[test]
fn glide_takes_precedence() {
    let m = driver::Movement {
        x: 3,
        y: 4,
        z: 0,
        touch_down: true,
    };
    assert_eq!(Pad::oriented(m, None), (4, -3));
    assert_eq!(Pad::oriented(m, Some((10, 20))), (20, -10));
}

#[test]
fn only_new_pad_moves_are_told() {
    let mut filter = MoveFilter::new();
    assert_eq!(filter.on_report(0, 0, 30), None);
    assert_eq!(
        filter.on_report(1, -2, 30),
        Some(MouseMove {
            dx: 1,
            dy: -2,
            pressure: 30
        })
    );
    assert_eq!(filter.on_report(1, -2, 31), None);
}

#[test]
fn turns() {
    assert_eq!(TransformMode::Normal.transform(1, 2), (1, 2));
    assert_eq!(TransformMode::Rotate90.transform(1, 2), (2, -1));
    assert_eq!(TransformMode::Rotate180.transform(1, 2), (-1, -2));
    assert_eq!(TransformMode::Rotate270.transform(1, 2), (-2, 1));
    let (x, y) = TransformMode::Rotate90.transform(7, -9);
    assert_eq!(TransformMode::Rotate270.transform(x, y), (7, -9));
    assert!(!TransformMode::Rotate90.can_transform(-128, 0));
    assert!(TransformMode::Rotate90.can_transform(0, -128));
    assert!(!TransformMode::Rotate180.can_transform(0, -128));
    assert!(!TransformMode::Rotate270.can_transform(0, -128));
    assert!(TransformMode::Normal.can_transform(-128, -128));
}

#[test]
fn relative_packets() {
    let mut pad = Trackpad::new();
    pad.position_mode = PositionMode::Relative;
    assert_eq!(
        pad.read_data(&[0x07, 5, 6, 0, 0, 0]),
        Reading::Relative {
            dx: 5,
            dy: -6,
            wheel_count: 6,
            buttons: 7
        }
    );
    assert_eq!(
        pad.read_data(&[0x30, 0xff, 0xfe, 0, 0, 0]),
        Reading::Relative {
            dx: -1,
            dy: 2,
            wheel_count: -2,
            buttons: 0
        }
    );
    assert_eq!(
        pad.read_data(&[0x30, 0, 0, 0, 0, 0]),
        Reading::Relative {
            dx: 0,
            dy: 0,
            wheel_count: 0,
            buttons: 0
        }
    );
}

#[test]
fn remainders_are_carried() {
    let mut pad = Trackpad::new();
    pad.position_mode = PositionMode::Relative;
    pad.transform = TransformMode::Normal;
    // 1102 counts: one step is 4 counts and 78/256, the other way it is -4 and -78/256
    assert_eq!(pad.get_report(Some([0, 1, 0, 0, 0, 0])), Some((4, 0)));
    assert_eq!(pad.relative_remainder, (78, 0));
    assert_eq!(pad.get_report(Some([0, 1, 1, 0, 0, 0])), Some((4, -4)));
    assert_eq!(pad.relative_remainder, (156, -78));
    assert_eq!(pad.get_report(Some([0, 1, 0, 0, 0, 0])), Some((4, 0)));
    assert_eq!(pad.relative_remainder, (234, -78));
    assert_eq!(pad.get_report(Some([0, 1, 0, 0, 0, 0])), Some((5, 0)));
    assert_eq!(pad.relative_remainder, (56, -78));
}

#[test]
fn absolute_mode_of_the_configurable_pad() {
    let mut pad = Trackpad::new();
    assert_eq!(pad.scale, 1102);
    assert_eq!(pad.get_report(None), None);
    assert_eq!(pad.get_report(Some(packet(1000, 1000, 20))), Some((0, 0)));
    assert_eq!(pad.get_report(Some(packet(1016, 1016, 20))), Some((12, -10)));
    assert_eq!(Reading::resolve_abs(1000, 1000), (873, 937));
}

#[test]
fn changing_the_scale_is_no_move() {
    let mut pad = Trackpad::new();
    pad.get_report(Some(packet(1000, 1000, 20)));
    pad.set_scale(400);
    assert_eq!(pad.scale, 551);
    assert_eq!(pad.get_report(Some(packet(1000, 1000, 20))), Some((0, 0)));
    pad.set_scale(u16::MAX);
    assert_eq!(pad.scale, (65535u32 * 350 / 254) as u16);
}

#[test]
fn calibration() {
    let mut pad = Trackpad::new();
    assert!(pad.should_calibrate(false));
    pad.overlay = Overlay::Other;
    assert!(!pad.should_calibrate(false));
    assert!(pad.should_calibrate(true));
}
