use cnano_rs::clock::{pio_freq, ws2812_clock_divider};
use cnano_rs::keys::KeyEvent;
use cnano_rs::rgb_anims::{RgbAnim, RgbAnimType, ERROR_COLOR_INDEX, RGB8};
use cnano_rs::rgb_leds::{
    accepts_command, accepts_key_event, led_words, on_command, on_key_event, on_tick, AnimCommand,
    Timing,
};
use cnano_rs::serde::Event;

#[test]
fn words_of_the_leds() {
    let colors = vec![RGB8::new(0x12, 0x34, 0x56), RGB8::new(0xff, 0, 1)];
    assert_eq!(led_words(&colors), vec![0x3412_5600, 0x00ff_0100]);
    assert_eq!(led_words(&vec![]), Vec::<u32>::new());
}

#[test]
fn next_is_told_to_the_other_half() {
    let mut anim = RgbAnim::new(true, 1);
    anim.set_animation(RgbAnimType::Wheel);
    assert_eq!(
        on_command(&mut anim, AnimCommand::Next),
        Some(Event::RgbAnim(RgbAnimType::Pulse))
    );
    assert_eq!(on_command(&mut anim, AnimCommand::SetAnim(RgbAnimType::Input)), None);
    assert_eq!(anim.animation, RgbAnimType::Input);
}

#[test]
fn layers_and_errors_come_and_go() {
    let mut anim = RgbAnim::new(true, 1);
    anim.set_animation(RgbAnimType::Wheel);
    assert_eq!(on_command(&mut anim, AnimCommand::ChangeLayer(3)), None);
    assert_eq!(anim.animation, RgbAnimType::SolidColor(3));
    on_command(&mut anim, AnimCommand::Error);
    assert_eq!(anim.animation, RgbAnimType::SolidColor(ERROR_COLOR_INDEX));
    on_command(&mut anim, AnimCommand::Fixed);
    assert_eq!(anim.animation, RgbAnimType::Wheel);
    on_command(&mut anim, AnimCommand::ChangeLayer(3));
    on_command(&mut anim, AnimCommand::ChangeLayer(0));
    assert_eq!(anim.animation, RgbAnimType::Wheel);
}

#[test]
fn unknown_colors_are_not_accepted() {
    let mut anim = RgbAnim::new(true, 1);
    assert!(accepts_command(&anim, &AnimCommand::ChangeLayer(10)));
    assert!(!accepts_command(&anim, &AnimCommand::ChangeLayer(11)));
    anim.set_animation(RgbAnimType::Off);
    assert!(accepts_command(&anim, &AnimCommand::ChangeLayer(11)));
    assert!(accepts_command(&anim, &AnimCommand::Next));
}

#[test]
fn key_events_are_shown() {
    let mut anim = RgbAnim::new(false, 1);
    assert!(accepts_key_event(&anim, &KeyEvent::Press(9, 9)));
    anim.set_animation(RgbAnimType::InputSolid(11));
    assert!(!accepts_key_event(&anim, &KeyEvent::Press(0, 0)));
    assert!(accepts_key_event(&anim, &KeyEvent::Release(0, 0)));
    anim.set_animation(RgbAnimType::InputSolid(2));
    assert!(!accepts_key_event(&anim, &KeyEvent::Press(3, 4)));
    on_key_event(&mut anim, KeyEvent::Press(2, 4));
    assert_eq!(anim.led_data[14], RGB8::indexed(2));
    assert_eq!(on_tick(&mut anim)[14], 0x4000_0000);
    on_key_event(&mut anim, KeyEvent::Release(2, 4));
    assert_eq!(anim.led_data[14], RGB8::default());
}

#[test]
fn timing_is_told_every_so_often() {
    let mut timing = Timing::new();
    for n in 1..120u64 {
        assert_eq!(timing.on_iteration(n), None);
    }
    assert_eq!(
        timing.on_iteration(1000),
        Some(Timing {
            tick_count: 120,
            total_us: 119 * 60 + 1000,
            max_us: 1000
        })
    );
    assert_eq!(timing, Timing::new());
}

#[test]
fn clock_dividers() {
    // 125 MHz: 15.625 for the leds, 33.908... for the other half
    assert_eq!(ws2812_clock_divider(125_000_000), 15 * 256 + 160);
    assert_eq!(pio_freq(125_000_000), 8680);
    assert_eq!(ws2812_clock_divider(133_000_999), 133_000 * 256 / 8000);
    assert_eq!(pio_freq(u32::MAX), (u32::MAX as u64 * 256 / (8 * 460_800)) as u32);
    assert_eq!(ws2812_clock_divider(0), 0);
}
