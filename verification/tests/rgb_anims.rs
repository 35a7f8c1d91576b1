use cnano_rs::board::Board;
use cnano_rs::prng::XorShift32;
use cnano_rs::rgb_anims::{
    wheel, RgbAnim, RgbAnimType, DEFAULT_COLOR_INDEX, MAX_LIGHT_LEVEL, NUM_LEDS, PULSE_TABLE,
    RGB8,
};
use cnano_rs::serde::Error;

#[test]
fn test_rgb_anim_type_serde() {
    let types = [
        RgbAnimType::Off,
        RgbAnimType::SolidColor(0),
        RgbAnimType::SolidColor(31),
        RgbAnimType::Wheel,
        RgbAnimType::Pulse,
        RgbAnimType::PulseSolid(0),
        RgbAnimType::PulseSolid(31),
        RgbAnimType::Input,
        RgbAnimType::InputSolid(0),
        RgbAnimType::InputSolid(31),
    ];
    for t in types.iter() {
        let value = t.to_u8().unwrap();
        let t2 = RgbAnimType::from_u8(value).unwrap();
        assert_eq!(*t, t2);
    }
}

#[test]
fn animation_bytes() {
    assert_eq!(RgbAnimType::SolidColor(3).to_u8(), Ok(0x23));
    assert_eq!(RgbAnimType::InputSolid(31).to_u8(), Ok(0xdf));
    assert_eq!(RgbAnimType::SolidColor(32).to_u8(), Err(Error::Serialization));
    assert_eq!(RgbAnimType::PulseSolid(32).to_u8(), Err(Error::Serialization));
    assert_eq!(RgbAnimType::InputSolid(255).to_u8(), Err(Error::Serialization));
    assert_eq!(RgbAnimType::from_u8(0xe0), Err(Error::Deserialization));
    assert_eq!(RgbAnimType::from_u8(0x5f), Ok(RgbAnimType::Wheel));
}

#[test]
fn colors() {
    assert_eq!(RGB8::default(), RGB8::new(0, 0, 0));
    assert_eq!(RGB8::indexed(1), RGB8::new(0x40, 0x10, 0));
    assert_eq!(RGB8::indexed(9), RGB8::new(0x40, 0, 0));
    assert_eq!(RGB8::indexed(10), RGB8::new(0xaf, 0xaf, 0xaf));
    assert_eq!(RGB8::from(0xffff_ffff), RGB8::new(0xaf, 0xaf, 0xaf));
    assert_eq!(RGB8::from(0x50a0_0f33), RGB8::new(0x00, 0xa0, 0x0f));
    for i in [1u32, 0x1234_5678, 0xdead_beef] {
        let c = RGB8::from(i);
        assert!(c.r <= MAX_LIGHT_LEVEL && c.g <= MAX_LIGHT_LEVEL && c.b <= MAX_LIGHT_LEVEL);
    }
}

#[test]
fn wheel_goes_from_red_to_green_to_blue_and_back() {
    assert_eq!(wheel(0), RGB8::new(255, 0, 0));
    assert_eq!(wheel(85), RGB8::new(0, 255, 0));
    assert_eq!(wheel(170), RGB8::new(0, 0, 255));
    assert_eq!(wheel(255), RGB8::new(255, 0, 0));
    assert_eq!(wheel(10), RGB8::new(225, 30, 0));
    for pos in 0..=255u8 {
        let c = wheel(pos);
        assert_eq!(c.r as u32 + c.g as u32 + c.b as u32, 255);
    }
}

#[test]
fn random_numbers() {
    let mut prng = XorShift32::new(1);
    assert_eq!(prng.random(), 270369);
    assert_eq!(prng.random(), 67634689);
    assert_eq!(prng.get_state(), 67634689);
    prng.seed(1);
    assert_eq!(prng.random(), 270369);
    // zero stays, and only zero leads to it
    prng.seed(0);
    assert_eq!(prng.random(), 0);
    for seed in 1..1000 {
        assert_ne!(XorShift32::new(seed).random(), 0);
    }
}

#[test]
fn solid_color_fills_the_leds() {
    let mut anim = RgbAnim::new(true, 1);
    assert_eq!(anim.tick().len(), NUM_LEDS);
    anim.set_animation(RgbAnimType::SolidColor(2));
    for led in anim.tick() {
        assert_eq!(*led, RGB8::indexed(2));
    }
    anim.set_animation(RgbAnimType::Off);
    for led in anim.tick() {
        assert_eq!(*led, RGB8::default());
    }
}

#[test]
fn all_leds_of_a_dilemma_are_filled() {
    let mut anim = RgbAnim::on_board(Board::Dilemma, false, 1);
    anim.set_animation(RgbAnimType::SolidColor(4));
    let leds = anim.tick();
    assert_eq!(*leds, vec![RGB8::indexed(4); 36]);
    anim.temporarily_solid_color(7);
    assert_eq!(anim.led_data, vec![RGB8::indexed(7); 36]);
}

#[test]
fn wheel_turns() {
    let mut anim = RgbAnim::new(false, 1);
    anim.set_animation(RgbAnimType::Wheel);
    let leds = anim.tick();
    assert_eq!(leds[0], wheel(0));
    assert_eq!(leds[1], wheel(9));
    assert_eq!(leds[17], wheel(165));
    let leds = anim.tick();
    assert_eq!(leds[0], wheel(1));
}

#[test]
fn pulse_follows_its_table() {
    let mut anim = RgbAnim::new(false, 1);
    anim.set_animation(RgbAnimType::PulseSolid(9));
    for frame in 0..=255u32 {
        let led = anim.tick()[0];
        if frame % 128 == 64 {
            assert_eq!(led, RGB8::new((0x40 * 175 / 255) as u8, 0, 0));
        }
        if frame % 128 == 0 {
            assert_eq!(led, RGB8::default());
        }
    }
    assert_eq!(anim.frame, 0);
}

#[test]
fn solid_pulse_has_its_own_color() {
    let mut anim = RgbAnim::new(false, 1);
    anim.set_animation(RgbAnimType::PulseSolid(4));
    for _ in 0..64 {
        anim.tick();
    }
    assert_eq!(*anim.tick(), vec![RGB8::new(0, 0, 43); 18]);
}

#[test]
fn key_color_is_not_the_main_color() {
    let mut anim = RgbAnim::new(false, 1);
    anim.set_animation(RgbAnimType::Input);
    let color = anim.color;
    anim.on_key_event(0, 0, true);
    assert_eq!(anim.led_data[2], RGB8::from(270369));
    assert_eq!(anim.color, color);
}

#[test]
fn main_keys_have_leds_of_their_own() {
    for board in [Board::Cnano, Board::Dilemma] {
        let mut lit = vec![];
        for i in 0..3 {
            for j in 0..5 {
                let mut left = RgbAnim::on_board(board, false, 1);
                left.set_animation(RgbAnimType::InputSolid(3));
                left.on_key_event(i, j, true);
                let mut right = RgbAnim::on_board(board, true, 1);
                right.set_animation(RgbAnimType::InputSolid(3));
                right.on_key_event(i, 9 - j, true);
                assert_eq!(left.led_data, right.led_data);
                let on = RGB8::indexed(3);
                lit.push(left.led_data.iter().position(|led| *led == on).unwrap());
            }
        }
        lit.sort();
        let first = if board == Board::Cnano { 0 } else { 18 };
        assert_eq!(lit, (first..first + 15).collect::<Vec<_>>());
    }
}

#[test]
fn pulse_takes_a_new_color_each_time() {
    let mut anim = RgbAnim::new(false, 1);
    anim.set_animation(RgbAnimType::Pulse);
    anim.tick();
    assert_eq!(anim.color, RGB8::from(270369));
    for _ in 1..128 {
        anim.tick();
    }
    assert_eq!(anim.color, RGB8::from(270369));
    anim.tick();
    assert_eq!(anim.color, RGB8::from(67634689));
}

#[test]
fn pressed_keys_light_up() {
    let mut anim = RgbAnim::new(true, 1);
    anim.set_animation(RgbAnimType::InputSolid(3));
    // the right side counts its columns from the outside
    anim.on_key_event(0, 9, true);
    assert_eq!(anim.tick()[2], RGB8::indexed(3));
    anim.on_key_event(0, 9, false);
    assert_eq!(anim.tick()[2], RGB8::default());
    anim.set_animation(RgbAnimType::Input);
    anim.on_key_event(3, 5, true);
    assert_eq!(anim.tick()[16], RGB8::from(270369));
    anim.set_animation(RgbAnimType::Wheel);
    anim.on_key_event(0, 9, true);
    assert_eq!(anim.led_data[2], RGB8::default());
}

#[test]
fn keys_without_led() {
    let left = RgbAnim::new(false, 1);
    assert!(left.key_has_led(3, 2));
    assert!(!left.key_has_led(3, 3));
    assert!(!left.key_has_led(0, 5));
    assert!(!left.key_has_led(4, 0));
    let right = RgbAnim::on_board(Board::Dilemma, true, 1);
    assert!(right.key_has_led(3, 6));
    assert!(!right.key_has_led(3, 7));
    assert!(!right.key_has_led(0, 4));
    assert!(!right.key_has_led(0, 10));
}

#[test]
fn animations_cycle() {
    let mut anim = RgbAnim::new(true, 1);
    let expected = [
        RgbAnimType::SolidColor(DEFAULT_COLOR_INDEX),
        RgbAnimType::Wheel,
        RgbAnimType::Pulse,
        RgbAnimType::PulseSolid(DEFAULT_COLOR_INDEX),
        RgbAnimType::Input,
        RgbAnimType::InputSolid(DEFAULT_COLOR_INDEX),
        RgbAnimType::Off,
        RgbAnimType::SolidColor(0),
    ];
    for _ in 0..2 {
        for e in expected {
            let a = anim.next_animation();
            assert_eq!(a, e);
            assert_eq!(anim.animation, e);
            assert!(a.color_is_known());
        }
    }
    assert!(!RgbAnimType::SolidColor(11).color_is_known());
    assert!(!RgbAnimType::InputSolid(11).color_is_known());
    assert!(!RgbAnimType::PulseSolid(11).color_is_known());
    assert!(RgbAnimType::PulseSolid(10).color_is_known());
}

#[test]
fn next_animation_sets_colors() {
    let mut anim = RgbAnim::new(true, 1);
    anim.next_animation();
    assert_eq!(anim.led_data[0], RGB8::indexed(DEFAULT_COLOR_INDEX));
    anim.set_animation(RgbAnimType::PulseSolid(2));
    anim.next_animation();
    assert_eq!(anim.color, RGB8::from(270369));
    anim.next_animation();
    assert_eq!(anim.color, RGB8::indexed(DEFAULT_COLOR_INDEX));
}

#[test]
fn solid_color_for_a_while() {
    let mut anim = RgbAnim::new(true, 1);
    anim.set_animation(RgbAnimType::Wheel);
    anim.temporarily_solid_color(5);
    assert_eq!(anim.animation, RgbAnimType::SolidColor(5));
    assert_eq!(anim.led_data[3], RGB8::indexed(5));
    anim.temporarily_solid_color(6);
    assert_eq!(anim.animation, RgbAnimType::SolidColor(6));
    anim.restore_animation();
    assert_eq!(anim.animation, RgbAnimType::Wheel);
    assert_eq!(anim.saved_animation, None);
    // nothing to restore
    anim.restore_animation();
    assert_eq!(anim.animation, RgbAnimType::Wheel);
}

#[test]
fn leds_that_are_off_stay_off() {
    let mut anim = RgbAnim::new(true, 1);
    anim.set_animation(RgbAnimType::Off);
    anim.temporarily_solid_color(5);
    assert_eq!(anim.animation, RgbAnimType::Off);
    assert_eq!(anim.saved_animation, None);
}

#[test]
fn animation_can_be_changed_meanwhile() {
    let mut anim = RgbAnim::new(true, 1);
    anim.set_animation(RgbAnimType::Wheel);
    anim.temporarily_solid_color(5);
    assert_eq!(anim.next_animation(), RgbAnimType::Pulse);
    assert_eq!(anim.saved_animation, Some(RgbAnimType::Pulse));
    anim.temporarily_solid_color(5);
    anim.set_animation(RgbAnimType::Input);
    anim.restore_animation();
    assert_eq!(anim.animation, RgbAnimType::Input);
}

#[test]
fn pulse_table_is_a_sine() {
    for (x, level) in PULSE_TABLE.iter().enumerate() {
        let sine = (x as f64 / 128.0 * std::f64::consts::PI).sin();
        assert_eq!(*level, (sine.powi(4) * 175.0) as u16);
    }
}
