//! What the RGB leds are told to do.
use vstd::prelude::*;

use crate::keys::KeyEvent;
use crate::rgb_anims::{RgbAnim, RgbAnimType, ERROR_COLOR_INDEX, NUM_COLORS, RGB8};
use crate::serde::Event;

verus! {

/// Animation commands
#[derive(Debug, Clone, Copy, PartialEq, Eq, Structural)]
pub enum AnimCommand {
    /// Set the next animation
    Next,
    /// Change Layer
    ChangeLayer(u8),
    /// Set the animation
    SetAnim(RgbAnimType),
    /// On error
    Error,
    /// Error has been fixed
    Fixed,
}

/// The word that a led is sent: green, red, then blue, highest bits first.
pub open spec fn led_word(color: RGB8) -> u32 {
    (color.g * 0x1000000 + color.r * 0x10000 + color.b * 0x100) as u32
}

/// The words that the leds are sent
pub fn led_words(colors: &Vec<RGB8>) -> (words: Vec<u32>)
    ensures
        words@ == colors@.map_values(|color: RGB8| led_word(color)),
{
    let mut words: Vec<u32> = Vec::new();
    let mut k: usize = 0;
    while k < colors.len()
        invariant
            k <= colors@.len(),
            words@ == colors@.take(k as int).map_values(|color: RGB8| led_word(color)),
        decreases colors@.len() - k,
    {
        let color = colors[k];
        let word: u32 = (color.g as u32) * 0x1000000 + (color.r as u32) * 0x10000 + (
        color.b as u32) * 0x100;
        words.push(word);
        k = k + 1;
        assert(words@ =~= colors@.take(k as int).map_values(|color: RGB8| led_word(color)));
    }
    assert(colors@.take(k as int) =~= colors@);
    words
}

/// Different colors are sent as different words, and only the 24 highest bits are used.
pub proof fn law_led_word_injective(a: RGB8, b: RGB8)
    ensures
        led_word(a) == led_word(b) ==> a == b,
        led_word(a) % 256 == 0,
{
}

/// The animation that a command shows.
pub open spec fn shown_after(anim: RgbAnim, command: AnimCommand) -> RgbAnimType {
    match command {
        AnimCommand::Next => crate::rgb_anims::animation_after(anim.chosen()),
        AnimCommand::SetAnim(new_anim) => new_anim,
        AnimCommand::ChangeLayer(layer) => if layer == 0 {
            anim.chosen()
        } else {
            solid_unless_off(anim, layer)
        },
        AnimCommand::Error => solid_unless_off(anim, ERROR_COLOR_INDEX),
        AnimCommand::Fixed => anim.chosen(),
    }
}

/// A solid color, unless the leds are off.
pub open spec fn solid_unless_off(anim: RgbAnim, color: u8) -> RgbAnimType {
    if anim.animation == RgbAnimType::Off {
        RgbAnimType::Off
    } else {
        RgbAnimType::SolidColor(color)
    }
}

/// The animation that is chosen after a command.
pub open spec fn chosen_after(anim: RgbAnim, command: AnimCommand) -> RgbAnimType {
    match command {
        AnimCommand::Next => crate::rgb_anims::animation_after(anim.chosen()),
        AnimCommand::SetAnim(new_anim) => new_anim,
        _ => anim.chosen(),
    }
}

/// Whether a command names a color that exists, if it shows one.
pub open spec fn command_is_known(anim: RgbAnim, command: AnimCommand) -> bool {
    match command {
        AnimCommand::ChangeLayer(layer) => layer == 0 || anim.animation == RgbAnimType::Off || layer
            < NUM_COLORS,
        _ => true,
    }
}

/// Whether a command names a color that exists, if it shows one
pub fn accepts_command(anim: &RgbAnim, command: &AnimCommand) -> (b: bool)
    ensures
        b == command_is_known(*anim, *command),
{
    match command {
        AnimCommand::ChangeLayer(layer) => *layer == 0 || anim.animation == RgbAnimType::Off
            || *layer < NUM_COLORS,
        _ => true,
    }
}

/// Follow a command. Returns the event that the other half is to be told, if any
pub fn on_command(anim: &mut RgbAnim, command: AnimCommand) -> (event: Option<Event>)
    requires
        old(anim).wf(),
        command_is_known(*old(anim), command),
    ensures
        final(anim).wf(),
        final(anim).animation == shown_after(*old(anim), command),
        final(anim).chosen() == chosen_after(*old(anim), command),
        event == if command == AnimCommand::Next {
            Some(Event::RgbAnim(final(anim).animation))
        } else {
            None
        },
        match command {
            AnimCommand::Next => old(anim).cycled(*final(anim)),
            AnimCommand::SetAnim(new_anim) => old(anim).animation_set(*final(anim), new_anim),
            AnimCommand::ChangeLayer(layer) => if layer == 0 {
                *final(anim) == old(anim).restored()
            } else {
                old(anim).solid_shown(*final(anim), layer)
            },
            AnimCommand::Error => old(anim).solid_shown(*final(anim), ERROR_COLOR_INDEX),
            AnimCommand::Fixed => *final(anim) == old(anim).restored(),
        },
{
    match command {
        AnimCommand::Next => {
            let new_anim = anim.next_animation();
            return Some(Event::RgbAnim(new_anim));
        },
        AnimCommand::SetAnim(new_anim) => {
            anim.set_animation(new_anim);
        },
        AnimCommand::ChangeLayer(layer) => {
            if layer == 0 {
                anim.restore_animation();
            } else {
                anim.temporarily_solid_color(layer);
            }
        },
        AnimCommand::Error => {
            anim.temporarily_solid_color(ERROR_COLOR_INDEX);
        },
        AnimCommand::Fixed => {
            anim.restore_animation();
        },
    }
    None
}

/// The key event as the animations take it.
pub open spec fn key_of(event: KeyEvent) -> (u8, u8, bool) {
    match event {
        KeyEvent::Press(i, j) => (i, j, true),
        KeyEvent::Release(i, j) => (i, j, false),
    }
}

/// Whether a key event can be shown by the animation.
pub open spec fn key_is_known(anim: RgbAnim, event: KeyEvent) -> bool {
    let (i, j, is_press) = key_of(event);
    match anim.animation {
        RgbAnimType::Input => crate::rgb_anims::key_has_led(anim.board, anim.is_right, i, j),
        RgbAnimType::InputSolid(color) => crate::rgb_anims::key_has_led(
            anim.board,
            anim.is_right,
            i,
            j,
        ) && (is_press ==> color < NUM_COLORS),
        _ => true,
    }
}

/// Whether a key event can be shown by the animation
pub fn accepts_key_event(anim: &RgbAnim, event: &KeyEvent) -> (b: bool)
    requires
        anim.wf(),
    ensures
        b == key_is_known(*anim, *event),
{
    let (i, j, is_press): (u8, u8, bool) = match event {
        KeyEvent::Press(i, j) => (*i, *j, true),
        KeyEvent::Release(i, j) => (*i, *j, false),
    };
    match anim.animation {
        RgbAnimType::Input => anim.key_has_led(i, j),
        RgbAnimType::InputSolid(color) => anim.key_has_led(i, j) && (!is_press || color
            < NUM_COLORS),
        _ => true,
    }
}

/// Show a key event
pub fn on_key_event(anim: &mut RgbAnim, event: KeyEvent)
    requires
        old(anim).wf(),
        key_is_known(*old(anim), event),
    ensures
        final(anim).wf(),
        old(anim).key_shown(*final(anim), key_of(event).0, key_of(event).1, key_of(event).2),
{
    match event {
        KeyEvent::Press(i, j) => {
            anim.on_key_event(i, j, true);
        },
        KeyEvent::Release(i, j) => {
            anim.on_key_event(i, j, false);
        },
    }
}

/// Show the next frame. Returns the words that the leds are to be sent
pub fn on_tick(anim: &mut RgbAnim) -> (words: Vec<u32>)
    requires
        old(anim).wf(),
        old(anim).animation matches RgbAnimType::SolidColor(idx) ==> idx < NUM_COLORS,
        old(anim).animation matches RgbAnimType::PulseSolid(idx) ==> idx < NUM_COLORS,
    ensures
        final(anim).wf(),
        old(anim).ticked(*final(anim)),
        words@ == final(anim).led_data@.map_values(|color: RGB8| led_word(color)),
{
    led_words(anim.tick())
}

/// A layer color or an error that comes and goes leaves the chosen animation alone.
pub proof fn law_passing_colors_keep_the_choice(anim: RgbAnim, layer: u8)
    ensures
        chosen_after(anim, AnimCommand::ChangeLayer(layer)) == anim.chosen(),
        chosen_after(anim, AnimCommand::Error) == anim.chosen(),
        shown_after(anim, AnimCommand::Fixed) == anim.chosen(),
        shown_after(anim, AnimCommand::ChangeLayer(0)) == anim.chosen(),
{
}

/// Number of iterations over which times are measured
pub const TIMING_ITERATIONS: usize = 120;

/// How long the iterations of a loop take
#[derive(Debug, Clone, Copy, PartialEq, Eq, Structural)]
pub struct Timing {
    /// Number of iterations
    pub tick_count: usize,
    /// Time of all iterations, in microseconds
    pub total_us: u64,
    /// Longest iteration, in microseconds
    pub max_us: u64,
}

impl Timing {
    /// No iteration yet
    pub fn new() -> (timing: Self)
        ensures
            timing == (Timing { tick_count: 0, total_us: 0, max_us: 0 }),
    {
        Timing { tick_count: 0, total_us: 0, max_us: 0 }
    }

    /// The figures with one more iteration.
    pub open spec fn with_iteration(self, elapsed_us: u64) -> Timing {
        Timing {
            tick_count: (self.tick_count + 1) as usize,
            total_us: (self.total_us + elapsed_us) as u64,
            max_us: if elapsed_us > self.max_us {
                elapsed_us
            } else {
                self.max_us
            },
        }
    }

    /// An iteration has ended. Once there are enough of them, tells the figures and starts
    /// anew
    pub fn on_iteration(&mut self, elapsed_us: u64) -> (report: Option<Timing>)
        requires
            old(self).tick_count < usize::MAX,
            old(self).total_us + elapsed_us <= u64::MAX,
        ensures
            ({
                let now = old(self).with_iteration(elapsed_us);
                if now.tick_count >= TIMING_ITERATIONS {
                    report == Some(now) && *final(self) == (Timing {
                        tick_count: 0,
                        total_us: 0,
                        max_us: 0,
                    })
                } else {
                    report is None && *final(self) == now
                }
            }),
    {
        self.total_us = self.total_us + elapsed_us;
        self.tick_count = self.tick_count + 1;
        if elapsed_us > self.max_us {
            self.max_us = elapsed_us;
        }
        if self.tick_count >= TIMING_ITERATIONS {
            let report = *self;
            *self = Timing::new();
            Some(report)
        } else {
            None
        }
    }
}

/// The word of a led has its green part in the highest byte, then red, then blue, and nothing
/// in the lowest. Each led gets its own, in their order.
pub proof fn law_led_words(colors: Vec<RGB8>, words: Vec<u32>, k: int)
    requires
        call_ensures(led_words, (&colors,), words),
        0 <= k < colors@.len(),
    ensures
        words@.len() == colors@.len(),
        words@[k] as int / 0x1000000 == colors@[k].g,
        words@[k] as int / 0x10000 % 256 == colors@[k].r,
        words@[k] as int / 0x100 % 256 == colors@[k].b,
        words@[k] as int % 256 == 0,
{
}

/// A tick sends the leds what the animation shows.
pub proof fn law_tick_sends_the_leds(
    anim: &mut RgbAnim,
    other: &mut RgbAnim,
    words: Vec<u32>,
    leds: &Vec<RGB8>,
    sent: Vec<u32>,
)
    requires
        old(anim).wf(),
        call_ensures(on_tick, (anim,), words),
        *old(other) == *old(anim),
        call_ensures(RgbAnim::tick, (other,), leds),
        call_ensures(led_words, (leds,), sent),
    ensures
        words@ == sent@,
        final(anim).led_data@ == final(other).led_data@,
        final(anim).frame == final(other).frame,
{
    let (a, b) = (*final(anim), *final(other));
    assert(a.led_data@ == b.led_data@);
}

/// Each command does its own: the next animation is chosen and told to the other half; an
/// animation is set; the color of a layer or of an error is shown for a while; the first layer
/// and the end of an error bring back what was chosen. Only the first one is told.
pub proof fn law_commands_are_followed(
    anim: &mut RgbAnim,
    command: AnimCommand,
    event: Option<Event>,
)
    requires
        old(anim).wf(),
        command_is_known(*old(anim), command),
        call_ensures(on_command, (anim, command), event),
    ensures
        event is Some <==> command == AnimCommand::Next,
        event matches Some(e) ==> e == Event::RgbAnim(final(anim).animation),
        command matches AnimCommand::SetAnim(new_anim) ==> final(anim).animation == new_anim,
        command == AnimCommand::Error && old(anim).animation != RgbAnimType::Off ==> final(anim).animation == RgbAnimType::SolidColor(10),
        command matches AnimCommand::ChangeLayer(layer) ==> (layer != 0 && old(anim).animation
            != RgbAnimType::Off ==> final(anim).animation == RgbAnimType::SolidColor(layer)),
        command == AnimCommand::Fixed || command == AnimCommand::ChangeLayer(0) ==> final(anim).saved_animation is None && final(anim).animation == match old(anim).saved_animation {
            Some(saved) => saved,
            None => old(anim).animation,
        },
        old(anim).animation == RgbAnimType::Off && (command == AnimCommand::Error || (
        command is ChangeLayer && command != AnimCommand::ChangeLayer(0))) ==> final(anim).animation
            == RgbAnimType::Off,
        final(anim).frame == 0,
{
}

/// A command does to the animations what the operation that it stands for does.
pub proof fn law_next_command_is_the_next_animation(
    anim: &mut RgbAnim,
    other: &mut RgbAnim,
    event: Option<Event>,
    next: RgbAnimType,
)
    requires
        old(anim).wf(),
        call_ensures(on_command, (anim, AnimCommand::Next), event),
        *old(other) == *old(anim),
        call_ensures(RgbAnim::next_animation, (other,), next),
    ensures
        final(anim).animation == next,
        final(anim).led_data@ == final(other).led_data@,
        final(anim).color == final(other).color,
        event == Some(Event::RgbAnim(next)),
{
}

/// A key event is shown as what it is: a press as a press and a release as a release, of the
/// same key.
pub proof fn law_key_event_is_shown(
    anim: &mut RgbAnim,
    other: &mut RgbAnim,
    i: u8,
    j: u8,
    is_press: bool,
)
    requires
        old(anim).wf(),
        call_ensures(
            on_key_event,
            (
                anim,
                if is_press {
                    KeyEvent::Press(i, j)
                } else {
                    KeyEvent::Release(i, j)
                },
            ),
            (),
        ),
        *old(other) == *old(anim),
        call_ensures(RgbAnim::on_key_event, (other, i, j, is_press), ()),
    ensures
        final(anim).led_data@ == final(other).led_data@,
        final(anim).prng.state == final(other).prng.state,
{
}

/// Only a layer that has no color is refused, and not where nothing is shown.
pub proof fn law_unknown_layers_are_refused(anim: RgbAnim, command: AnimCommand, b: bool)
    requires
        call_ensures(accepts_command, (&anim, &command), b),
    ensures
        !b <==> (command matches AnimCommand::ChangeLayer(layer) && layer >= 11 && anim.animation
            != RgbAnimType::Off),
{
}

/// A key event is refused only where an animation about keys has no led or no color for it.
pub proof fn law_unknown_keys_are_refused(
    anim: RgbAnim,
    i: u8,
    j: u8,
    press: bool,
    release: bool,
    has_led: bool,
)
    requires
        anim.wf(),
        call_ensures(accepts_key_event, (&anim, &KeyEvent::Press(i, j)), press),
        call_ensures(accepts_key_event, (&anim, &KeyEvent::Release(i, j)), release),
        call_ensures(RgbAnim::key_has_led, (&anim, i, j), has_led),
    ensures
        !(anim.animation is Input || anim.animation is InputSolid) ==> press && release,
        anim.animation == RgbAnimType::Input ==> press == has_led && release == has_led,
        anim.animation matches RgbAnimType::InputSolid(c) ==> release == has_led && press == (
        has_led && c <= 10),
{
}

/// Times are told once in 120 iterations: their number, their sum and the longest. Then they
/// start anew.
pub proof fn law_times_are_summed_up(timing: &mut Timing, elapsed_us: u64, report: Option<Timing>)
    requires
        old(timing).tick_count < usize::MAX,
        old(timing).total_us + elapsed_us <= u64::MAX,
        call_ensures(Timing::on_iteration, (timing, elapsed_us), report),
    ensures
        report is Some <==> old(timing).tick_count >= 119,
        ({
            let now = match report {
                Some(told) => told,
                None => *final(timing),
            };
            &&& now.tick_count == old(timing).tick_count + 1
            &&& now.total_us == old(timing).total_us + elapsed_us
            &&& now.max_us >= elapsed_us
            &&& now.max_us >= old(timing).max_us
            &&& now.max_us == elapsed_us || now.max_us == old(timing).max_us
        }),
        report is Some ==> final(timing).tick_count == 0 && final(timing).total_us == 0 && final(timing).max_us == 0,
{
}

/// No time is counted at the start.
pub proof fn law_new_timing(timing: Timing)
    requires
        call_ensures(Timing::new, (), timing),
    ensures
        timing.tick_count == 0,
        timing.total_us == 0,
        timing.max_us == 0,
{
}

/// The other commands do what the operations that they stand for do: an animation is set, a
/// layer other than the first shows its color for a while, and so does an error; the first
/// layer and the end of an error restore.
pub proof fn law_commands_are_their_operations(
    anim: &mut RgbAnim,
    set: &mut RgbAnim,
    layer_color: &mut RgbAnim,
    error: &mut RgbAnim,
    restored: &mut RgbAnim,
    command: AnimCommand,
    new_anim: RgbAnimType,
    layer: u8,
    event: Option<Event>,
)
    requires
        old(anim).wf(),
        command_is_known(*old(anim), command),
        call_ensures(on_command, (anim, command), event),
        *old(set) == *old(anim),
        call_ensures(RgbAnim::set_animation, (set, new_anim), ()),
        *old(layer_color) == *old(anim),
        call_ensures(RgbAnim::temporarily_solid_color, (layer_color, layer), ()),
        *old(error) == *old(anim),
        call_ensures(RgbAnim::temporarily_solid_color, (error, 10u8), ()),
        *old(restored) == *old(anim),
        call_ensures(RgbAnim::restore_animation, (restored,), ()),
    ensures
        command == AnimCommand::SetAnim(new_anim) ==> shows_the_same(*final(anim), *final(set)),
        command == AnimCommand::ChangeLayer(layer) && layer != 0 ==> shows_the_same(
            *final(anim),
            *final(layer_color),
        ),
        command == AnimCommand::Error ==> shows_the_same(*final(anim), *final(error)),
        command == AnimCommand::Fixed || command == AnimCommand::ChangeLayer(0) ==> shows_the_same(
            *final(anim),
            *final(restored),
        ),
{
}

/// Both show the same, now and later.
pub open spec fn shows_the_same(a: RgbAnim, b: RgbAnim) -> bool {
    &&& a.animation == b.animation
    &&& a.saved_animation == b.saved_animation
    &&& a.frame == b.frame
    &&& a.led_data@ == b.led_data@
    &&& a.color == b.color
    &&& a.prng.state == b.prng.state
}

} // verus!
