use cnano_rs::mouse::MouseMove;
use cnano_rs::trackball::{
    read_address, write_address, BurstData, Register, SensorCommand, Trackball, TrackballError,
    DEFAULT_CPI,
};

#[test]
fn bursts_are_read() {
    let mut ball = Trackball::new();
    let burst = ball.burst_get(&[0x80, 0, 0xfe, 0xff, 0x34, 0x12]);
    assert_eq!(
        burst,
        BurstData {
            motion: true,
            dx: 0x1234,
            dy: -2
        }
    );
    // without the motion bit, the values are not valid
    let burst = ball.burst_get(&[0x00, 0, 0xfe, 0xff, 0x34, 0x12]);
    assert_eq!(
        burst,
        BurstData {
            motion: false,
            dx: 0,
            dy: 0
        }
    );
}

#[test]
fn glitches_are_dropped() {
    let mut ball = Trackball::new();
    let burst = ball.burst_get(&[0x80, 0, 0x01, 0x00, 0xff, 0xff]);
    assert_eq!(
        burst,
        BurstData {
            motion: false,
            dx: 0,
            dy: 0
        }
    );
    let burst = ball.burst_get(&[0x80, 0, 0x01, 0x00, 0x02, 0x00]);
    assert_eq!(
        burst,
        BurstData {
            motion: true,
            dx: 2,
            dy: 0
        }
    );
}

#[test]
fn burst_mode_is_tracked() {
    let mut ball = Trackball::new();
    assert!(ball.needs_burst_write());
    ball.on_write(Register::MotionBurst);
    assert!(!ball.needs_burst_write());
    ball.burst_get(&[0x80, 0, 0, 0, 0, 0]);
    assert!(!ball.needs_burst_write());
    ball.burst_get(&[0x81, 0, 0, 0, 0, 0]);
    assert!(ball.needs_burst_write());
    ball.on_write(Register::MotionBurst);
    ball.on_write(Register::Config1);
    assert!(ball.needs_burst_write());
}

#[test]
fn only_new_moves_are_told() {
    let mut ball = Trackball::new();
    let burst = BurstData {
        motion: true,
        dx: 4,
        dy: 5,
    };
    assert_eq!(
        ball.on_burst(&burst),
        Some(MouseMove {
            dx: 4,
            dy: 5,
            pressure: 0
        })
    );
    assert_eq!(ball.on_burst(&burst), None);
    let rest = BurstData {
        motion: false,
        dx: 0,
        dy: 0,
    };
    assert!(ball.on_burst(&rest).is_some());
    assert_eq!(ball.on_burst(&rest), None);
}

#[test]
fn resolutions() {
    assert_eq!(Trackball::set_cpi(99), 0);
    assert_eq!(Trackball::set_cpi(100), 0);
    assert_eq!(Trackball::set_cpi(DEFAULT_CPI), 7);
    assert_eq!(Trackball::set_cpi(12000), 0x77);
    assert_eq!(Trackball::set_cpi(12001), 0x77);
    assert_eq!(Trackball::set_cpi(u16::MAX), 0x77);
    assert_eq!(Trackball::get_cpi(7), 800);
    assert_eq!(Trackball::get_cpi(255), 25600);
    for setting in 0..=0x77u8 {
        assert_eq!(Trackball::set_cpi(Trackball::get_cpi(setting)), setting);
    }
}

#[test]
fn resolution_goes_up_and_down() {
    let up = SensorCommand::IncreaseCpi;
    let down = SensorCommand::DecreaseCpi;
    assert_eq!(Trackball::setting_after_command(up, 7), 8);
    assert_eq!(Trackball::setting_after_command(down, 8), 7);
    assert_eq!(Trackball::setting_after_command(up, 0x77), 0x77);
    assert_eq!(Trackball::setting_after_command(down, 0), 0);
    assert_eq!(Trackball::setting_after_command(up, 255), 0x77);
}

#[test]
fn signature_and_self_test() {
    assert_eq!(Trackball::check_signature(0x04, 0x42, 0xbd), Ok(()));
    let bad = Err(TrackballError::InvalidSignature);
    assert_eq!(Trackball::check_signature(0x00, 0x42, 0xbd), bad);
    assert_eq!(Trackball::check_signature(0x04, 0x00, 0xbd), bad);
    assert_eq!(Trackball::check_signature(0x04, 0x42, 0x00), bad);
    assert!(Trackball::self_test(0xbe, 0xef));
    assert!(!Trackball::self_test(0xbe, 0));
}

#[test]
fn register_addresses() {
    assert_eq!(write_address(0x50), 0xd0);
    assert_eq!(read_address(0x50), 0x50);
    assert_eq!(read_address(0xd0), 0x50);
}
