//! Compute LED data to render RGB animations.
use vstd::prelude::*;

use crate::board::Board;
use crate::prng::XorShift32;
use crate::serde::Error;

verus! {

/// Number of LEDs on each side of a Charybdis Nano
pub const NUM_LEDS: usize = 18;

/// Number of LEDs on each side of a Dilemma
pub const NUM_LEDS_DILEMMA: usize = 36;

/// Number of underglow LEDs
pub const UNDERGLOW_LEDS: usize = 18;

/// Keyboard matrix rows
pub const ROWS: usize = 4;

/// Keyboard matrix columns
pub const COLS: usize = 5;

/// Maximum light level per color. Must be usable as a mask
pub const MAX_LIGHT_LEVEL: u8 = 0xaf;

/// Number of indexed colors
pub const NUM_COLORS: u8 = 11;

/// Default color: dark red
pub const DEFAULT_COLOR_INDEX: u8 = 9;

/// Error color
pub const ERROR_COLOR_INDEX: u8 = 10;

/// RGB Animation Type
#[derive(Debug, Clone, Copy, PartialEq, Eq, Structural)]
pub enum RgbAnimType {
    /// No animation, leds are off
    Off,
    /// All leds in one color, given by its index
    SolidColor(u8),
    /// Wheel
    Wheel,
    /// Pulse animation with random colors on each pulse
    Pulse,
    /// Pulse animation with solid color
    PulseSolid(u8),
    /// Highlight pressed keys with a random color
    Input,
    /// Highlight pressed keys with solid color, given by its index
    InputSolid(u8),
}

/// The byte of an animation type: three bits for the kind, five for the color index.
/// A color index that does not fit in five bits has none.
pub open spec fn anim_byte(anim: RgbAnimType) -> Option<u8> {
    match anim {
        RgbAnimType::Off => Some(0),
        RgbAnimType::SolidColor(s) => if s < 32 {
            Some((32 + s) as u8)
        } else {
            None
        },
        RgbAnimType::Wheel => Some(64),
        RgbAnimType::Pulse => Some(96),
        RgbAnimType::PulseSolid(s) => if s < 32 {
            Some((128 + s) as u8)
        } else {
            None
        },
        RgbAnimType::Input => Some(160),
        RgbAnimType::InputSolid(s) => if s < 32 {
            Some((192 + s) as u8)
        } else {
            None
        },
    }
}

/// The animation type that a byte stands for. The low five bits are ignored where
/// the kind has no color.
pub open spec fn byte_anim(value: u8) -> Option<RgbAnimType> {
    let color = (value % 32) as u8;
    match value / 32 {
        0 => Some(RgbAnimType::Off),
        1 => Some(RgbAnimType::SolidColor(color)),
        2 => Some(RgbAnimType::Wheel),
        3 => Some(RgbAnimType::Pulse),
        4 => Some(RgbAnimType::PulseSolid(color)),
        5 => Some(RgbAnimType::Input),
        6 => Some(RgbAnimType::InputSolid(color)),
        _ => None,
    }
}

impl RgbAnimType {
    /// Serialize the RGB Animation Type to a u8
    pub fn to_u8(&self) -> (r: Result<u8, Error>)
        ensures
            r == match anim_byte(*self) {
                Some(b) => Ok::<u8, Error>(b),
                None => Err::<u8, Error>(Error::Serialization),
            },
    {
        match *self {
            RgbAnimType::Off => Ok(0),
            RgbAnimType::SolidColor(s) if s < 32 => Ok(32 + s),
            RgbAnimType::Wheel => Ok(64),
            RgbAnimType::Pulse => Ok(96),
            RgbAnimType::PulseSolid(s) if s < 32 => Ok(128 + s),
            RgbAnimType::Input => Ok(160),
            RgbAnimType::InputSolid(s) if s < 32 => Ok(192 + s),
            _ => Err(Error::Serialization),
        }
    }

    /// Deserialize the RGB Animation Type from a u8
    pub fn from_u8(value: u8) -> (r: Result<Self, Error>)
        ensures
            r == match byte_anim(value) {
                Some(anim) => Ok::<RgbAnimType, Error>(anim),
                None => Err::<RgbAnimType, Error>(Error::Deserialization),
            },
    {
        let color: u8 = value % 32;
        match value / 32 {
            0 => Ok(RgbAnimType::Off),
            1 => Ok(RgbAnimType::SolidColor(color)),
            2 => Ok(RgbAnimType::Wheel),
            3 => Ok(RgbAnimType::Pulse),
            4 => Ok(RgbAnimType::PulseSolid(color)),
            5 => Ok(RgbAnimType::Input),
            6 => Ok(RgbAnimType::InputSolid(color)),
            _ => Err(Error::Deserialization),
        }
    }
}

/// Reading back the byte of an animation type gives that type.
pub proof fn law_anim_byte_roundtrip(anim: RgbAnimType)
    ensures
        anim_byte(anim) matches Some(b) ==> byte_anim(b) == Some(anim),
{
}

/// RGB Color
#[derive(Debug, Clone, Copy, PartialEq, Eq, Structural)]
pub struct RGB8 {
    /// Red
    pub r: u8,
    /// Green
    pub g: u8,
    /// Blue
    pub b: u8,
}

/// The color with the given index. Each layer of the keymap has its own.
pub open spec fn indexed_color(i: u8) -> RGB8 {
    match i {
        0 => RGB8 { r: 0, g: 0, b: 0 },
        1 => RGB8 { r: 0x40, g: 0x10, b: 0 },
        2 => RGB8 { r: 0, g: 0x40, b: 0 },
        3 => RGB8 { r: 0x40, g: 0, b: 0x10 },
        4 => RGB8 { r: 0, g: 0, b: 0x40 },
        5 => RGB8 { r: 0x07, g: 0, b: 0 },
        6 => RGB8 { r: 0x07, g: 0x07, b: 0x07 },
        7 => RGB8 { r: 0x0f, g: 0x0f, b: 0 },
        8 => RGB8 { r: 0x40, g: 0x30, b: 0 },
        9 => RGB8 { r: 0x40, g: 0, b: 0 },
        _ => RGB8 { r: MAX_LIGHT_LEVEL, g: MAX_LIGHT_LEVEL, b: MAX_LIGHT_LEVEL },
    }
}

/// No light at all.
pub open spec fn black() -> RGB8 {
    RGB8 { r: 0, g: 0, b: 0 }
}

impl RGB8 {
    /// Create a new RGB8 color
    pub fn new(r: u8, g: u8, b: u8) -> (color: Self)
        ensures
            color == (RGB8 { r, g, b }),
    {
        RGB8 { r, g, b }
    }

    /// Default color: black
    pub fn default() -> (color: Self)
        ensures
            color == black(),
    {
        RGB8::new(0, 0, 0)
    }

    /// Create a new RGB8 color from an indexed color
    pub fn indexed(i: u8) -> (color: Self)
        requires
            i < NUM_COLORS,
        ensures
            color == indexed_color(i),
    {
        match i {
            0 => RGB8::default(),
            1 => RGB8::new(0x40, 0x10, 0x00),  // orange, RAISE
            2 => RGB8::new(0x00, 0x40, 0x00),  // green, LOWER
            3 => RGB8::new(0x40, 0, 0x10),  // purple, MISC
            4 => RGB8::new(0x00, 0x00, 0x40),  // blue, NUMBERS
            5 => RGB8::new(0x07, 0, 0),  // red, TMUX
            6 => RGB8::new(0x07, 0x07, 0x07),  // gray, GAMING
            7 => RGB8::new(0x0f, 0x0f, 0x00),  // beige, CAPS
            8 => RGB8::new(0x40, 0x30, 0x00),  // yellow, QWERTY
            9 => RGB8::new(0x40, 0, 0),  // dark red, MOUSE
            _ => RGB8::new(MAX_LIGHT_LEVEL, MAX_LIGHT_LEVEL, MAX_LIGHT_LEVEL),  // white, ERROR
        }
    }
}

impl From<u32> for RGB8 {
    fn from(i: u32) -> (color: Self) {
        let r: u8 = ((i >> 24) as u8) & MAX_LIGHT_LEVEL;
        let g: u8 = ((i >> 16) as u8) & MAX_LIGHT_LEVEL;
        let b: u8 = ((i >> 8) as u8) & MAX_LIGHT_LEVEL;
        RGB8 { r, g, b }
    }
}

impl vstd::std_specs::convert::FromSpecImpl<u32> for RGB8 {
    open spec fn obeys_from_spec() -> bool {
        true
    }

    open spec fn from_spec(i: u32) -> RGB8 {
        RGB8 {
            r: ((i >> 24) as u8) & MAX_LIGHT_LEVEL,
            g: ((i >> 16) as u8) & MAX_LIGHT_LEVEL,
            b: ((i >> 8) as u8) & MAX_LIGHT_LEVEL,
        }
    }
}

/// The color that a random number gives.
pub open spec fn random_color(i: u32) -> RGB8 {
    <RGB8 as vstd::std_specs::convert::FromSpec<u32>>::from_spec(i)
}

/// A color made of a number is never brighter than the maximum light level.
pub proof fn law_color_is_bounded(i: u32)
    ensures
        random_color(i).r <= MAX_LIGHT_LEVEL,
        random_color(i).g <= MAX_LIGHT_LEVEL,
        random_color(i).b <= MAX_LIGHT_LEVEL,
{
    let (r, g, b) = ((i >> 24) as u8, (i >> 16) as u8, (i >> 8) as u8);
    assert(r & 0xaf <= 0xaf && g & 0xaf <= 0xaf && b & 0xaf <= 0xaf) by (bit_vector);
}

/// A position on the color wheel: red at 0, green a third of the way round, blue at
/// two thirds, then back to red.
pub open spec fn wheel_color(pos: u8) -> RGB8 {
    if pos <= 85 {
        RGB8 { r: (255 - 3 * pos) as u8, g: (3 * pos) as u8, b: 0 }
    } else if pos <= 170 {
        RGB8 { r: 0, g: (255 - 3 * (pos - 85)) as u8, b: (3 * (pos - 85)) as u8 }
    } else {
        RGB8 { r: (3 * (pos - 170)) as u8, g: 0, b: (255 - 3 * (pos - 170)) as u8 }
    }
}

/// Input a value 0 to 255 to get a color value
/// The colours are a transition r - g - b - back to r.
pub fn wheel(wheel_pos: u8) -> (color: RGB8)
    ensures
        color == wheel_color(wheel_pos),
{
    let mut wheel_pos: u8 = 255 - wheel_pos;
    if wheel_pos < 85 {
        return RGB8::new(255 - wheel_pos * 3, 0, wheel_pos * 3);
    }
    if wheel_pos < 170 {
        wheel_pos = wheel_pos - 85;
        return RGB8::new(0, wheel_pos * 3, 255 - wheel_pos * 3);
    }
    wheel_pos = wheel_pos - 170;
    RGB8::new(wheel_pos * 3, 255 - wheel_pos * 3, 0)
}

/// The colors of the wheel all have the same total brightness.
pub proof fn law_wheel_has_constant_brightness(pos: u8)
    ensures
        wheel_color(pos).r + wheel_color(pos).g + wheel_color(pos).b == 255,
{
}

/// Index of leds on the right side of a Charybdis Nano; 255 where there is no key
pub const MATRIX_LED_RIGHT_CNANO: [[usize; 5]; 4] = [
    [2, 3, 8, 9, 12],
    [1, 4, 7, 10, 13],
    [0, 5, 6, 11, 14],
    [255, 255, 255, 15, 16],
];

/// Index of leds on the right side of a Dilemma; 99 where there is no key
pub const MATRIX_LED_RIGHT_DILEMMA: [[usize; 5]; 4] = [
    [22, 21, 20, 19, 18],
    [23, 24, 25, 26, 27],
    [32, 31, 30, 29, 28],
    [99, 99, 99, 34, 35],
];

/// Index of leds on the left side of a Charybdis Nano; 255 where there is no key
pub const MATRIX_LED_LEFT_CNANO: [[usize; 5]; 4] = [
    [2, 3, 8, 9, 12],
    [1, 4, 7, 10, 13],
    [0, 5, 6, 11, 14],
    [15, 16, 17, 255, 255],
];

/// Index of leds on the left side of a Dilemma; 99 where there is no key
pub const MATRIX_LED_LEFT_DILEMMA: [[usize; 5]; 4] = [
    [22, 21, 20, 19, 18],
    [23, 24, 25, 26, 27],
    [32, 31, 30, 29, 28],
    [99, 99, 33, 34, 35],
];

/// Light level over a pulse: `sin(x / 128 * pi) ** 4 * 0xaf`, rounded down
pub const PULSE_TABLE: [u16; 128] = [
    0, 0, 0, 0, 0, 0, 0, 0, 0, 0, 0, 0, 1, 1, 2, 2, 3, 4, 5, 7, 8, 10, 12, 14, 16, 19, 22, 25, 28,
    31, 35, 39, 43, 48, 52, 57, 62, 67, 72, 78, 83, 89, 94, 100, 105, 111, 116, 122, 127, 132, 137,
    142, 146, 150, 154, 158, 161, 164, 167, 169, 171, 173, 174, 174, 175, 174, 174, 173, 171, 169,
    167, 164, 161, 158, 154, 150, 146, 142, 137, 132, 127, 122, 116, 111, 105, 100, 94, 89, 83, 78,
    72, 67, 62, 57, 52, 48, 43, 39, 35, 31, 28, 25, 22, 19, 16, 14, 12, 10, 8, 7, 5, 4, 3, 2, 2, 1,
    1, 0, 0, 0, 0, 0, 0, 0, 0, 0, 0, 0,
];

/// Number of LEDs on each side of a keyboard
pub open spec fn board_leds(board: Board) -> nat {
    match board {
        Board::Cnano => NUM_LEDS as nat,
        Board::Dilemma => NUM_LEDS_DILEMMA as nat,
    }
}

/// Whether a key is on the given side of the keyboard: the left side has the columns
/// 0 to 4, the right side the columns 5 to 9.
pub open spec fn key_on_side(is_right: bool, i: u8, j: u8) -> bool {
    i < 4 && if is_right {
        5 <= j <= 9
    } else {
        j <= 4
    }
}

/// The entry of the led matrix for a key. The right side counts its columns from the
/// outside.
pub open spec fn led_entry(board: Board, is_right: bool, i: u8, j: u8) -> usize {
    match (board, is_right) {
        (Board::Cnano, true) => MATRIX_LED_RIGHT_CNANO@[i as int]@[9 - j],
        (Board::Cnano, false) => MATRIX_LED_LEFT_CNANO@[i as int]@[j as int],
        (Board::Dilemma, true) => MATRIX_LED_RIGHT_DILEMMA@[i as int]@[9 - j],
        (Board::Dilemma, false) => MATRIX_LED_LEFT_DILEMMA@[i as int]@[j as int],
    }
}

/// Whether a key of this side has a led.
pub open spec fn key_has_led(board: Board, is_right: bool, i: u8, j: u8) -> bool {
    key_on_side(is_right, i, j) && led_entry(board, is_right, i, j) < board_leds(board)
}

/// All leds without light.
pub open spec fn leds_off(n: nat) -> Seq<RGB8> {
    Seq::new(n, |k: int| black())
}

/// All leds in one color.
pub open spec fn leds_filled(leds: Seq<RGB8>, color: RGB8) -> Seq<RGB8> {
    Seq::new(leds.len(), |k: int| color)
}

/// The underglow leds in the colors of the wheel, which turns with the frames.
pub open spec fn leds_wheel(leds: Seq<RGB8>, frame: u8) -> Seq<RGB8> {
    Seq::new(
        leds.len(),
        |k: int|
            if k < UNDERGLOW_LEDS {
                wheel_color(wheel_pos(k, frame))
            } else {
                leds[k]
            },
    )
}

/// Where on the wheel a led is.
pub open spec fn wheel_pos(k: int, frame: u8) -> u8 {
    ((k * MAX_LIGHT_LEVEL / UNDERGLOW_LEDS as int + frame) % 256) as u8
}

/// A color, dimmed to its level at a frame of the pulse.
pub open spec fn pulse_color(color: RGB8, frame: u8) -> RGB8 {
    let pulse = PULSE_TABLE@[frame as int % 128] as int;
    RGB8 {
        r: (color.r * pulse / 255) as u8,
        g: (color.g * pulse / 255) as u8,
        b: (color.b * pulse / 255) as u8,
    }
}

/// Whether the color index of an animation, if it has one that is looked up, is known.
pub open spec fn color_is_known(animation: RgbAnimType) -> bool {
    match animation {
        RgbAnimType::SolidColor(c) => c < NUM_COLORS,
        RgbAnimType::PulseSolid(c) => c < NUM_COLORS,
        RgbAnimType::InputSolid(c) => c < NUM_COLORS,
        _ => true,
    }
}

impl RgbAnimType {
    /// Whether the color index of the animation, if it has one that is looked up, is known
    pub fn color_is_known(&self) -> (b: bool)
        ensures
            b == color_is_known(*self),
    {
        match *self {
            RgbAnimType::SolidColor(c) => c < NUM_COLORS,
            RgbAnimType::PulseSolid(c) => c < NUM_COLORS,
            RgbAnimType::InputSolid(c) => c < NUM_COLORS,
            _ => true,
        }
    }
}

/// The animation that follows.
pub open spec fn animation_after(animation: RgbAnimType) -> RgbAnimType {
    match animation {
        RgbAnimType::Off => RgbAnimType::SolidColor(0),
        RgbAnimType::SolidColor(c) => if c == 0 {
            RgbAnimType::SolidColor(DEFAULT_COLOR_INDEX)
        } else {
            RgbAnimType::Wheel
        },
        RgbAnimType::Wheel => RgbAnimType::Pulse,
        RgbAnimType::Pulse => RgbAnimType::PulseSolid(DEFAULT_COLOR_INDEX),
        RgbAnimType::PulseSolid(_) => RgbAnimType::Input,
        RgbAnimType::Input => RgbAnimType::InputSolid(DEFAULT_COLOR_INDEX),
        RgbAnimType::InputSolid(_) => RgbAnimType::Off,
    }
}

/// The animations of one side
pub struct RgbAnim {
    /// The current animation frame
    pub frame: u8,
    /// The current animation
    pub animation: RgbAnimType,
    /// Saved animation
    pub saved_animation: Option<RgbAnimType>,
    /// The LED data
    pub led_data: Vec<RGB8>,
    /// The keyboard
    pub board: Board,
    /// Whether the animation is on the right side
    pub is_right: bool,
    /// current color
    pub color: RGB8,
    /// PRNG
    pub prng: XorShift32,
}

impl RgbAnim {
    /// There is data for each of the leds.
    pub open spec fn wf(self) -> bool {
        self.led_data@.len() == board_leds(self.board)
    }

    /// The animation that is chosen, be it shown or only saved.
    pub open spec fn chosen(self) -> RgbAnimType {
        match self.saved_animation {
            Some(saved) => saved,
            None => self.animation,
        }
    }

    /// The leds after a tick, given the color after it.
    pub open spec fn ticked_leds(self, color: RGB8) -> Seq<RGB8> {
        match self.animation {
            RgbAnimType::Off => leds_off(self.led_data@.len()),
            RgbAnimType::SolidColor(idx) => leds_filled(self.led_data@, indexed_color(idx)),
            RgbAnimType::Wheel => leds_wheel(self.led_data@, self.frame),
            RgbAnimType::Pulse => leds_filled(self.led_data@, pulse_color(color, self.frame)),
            RgbAnimType::PulseSolid(idx) => leds_filled(
                self.led_data@,
                pulse_color(indexed_color(idx), self.frame),
            ),
            RgbAnimType::Input | RgbAnimType::InputSolid(_) => self.led_data@,
        }
    }

    /// Showing a key event: its led gets a color while it is pressed, if the animation is
    /// about keys.
    pub open spec fn key_shown(self, after: RgbAnim, i: u8, j: u8, is_press: bool) -> bool {
        let led = led_entry(self.board, self.is_right, i, j) as int;
        &&& after == (RgbAnim { led_data: after.led_data, prng: after.prng, ..self })
        &&& after.prng.state == if self.animation is Input && is_press {
            crate::prng::xorshift(self.prng.state)
        } else {
            self.prng.state
        }
        &&& after.led_data@ == match self.animation {
            RgbAnimType::Input => self.led_data@.update(
                led,
                if is_press {
                    random_color(after.prng.state)
                } else {
                    black()
                },
            ),
            RgbAnimType::InputSolid(color) => self.led_data@.update(
                led,
                if is_press {
                    indexed_color(color)
                } else {
                    black()
                },
            ),
            _ => self.led_data@,
        }
    }

    /// One tick: the next frame is shown. The pulses get a random color each, unless the
    /// animation comes with its color.
    pub open spec fn ticked(self, after: RgbAnim) -> bool {
        let new_pulse = self.animation == RgbAnimType::Pulse && self.frame % 128 == 0;
        &&& after == (RgbAnim {
            frame: ((self.frame + 1) % 256) as u8,
            led_data: after.led_data,
            color: after.color,
            prng: after.prng,
            ..self
        })
        &&& after.prng.state == if new_pulse {
            crate::prng::xorshift(self.prng.state)
        } else {
            self.prng.state
        }
        &&& after.color == if new_pulse {
            random_color(after.prng.state)
        } else {
            self.color
        }
        &&& after.led_data@ == self.ticked_leds(after.color)
    }

    /// Cycling to the animation that follows the chosen one: it starts anew, with the leds
    /// off, except that a solid color is shown at once. Some animations come with a color.
    pub open spec fn cycled(self, after: RgbAnim) -> bool {
        let animation = animation_after(self.chosen());
        let n = self.led_data@.len();
        &&& after == (RgbAnim {
            frame: 0,
            animation,
            saved_animation: if self.saved_animation is Some {
                Some(animation)
            } else {
                None
            },
            led_data: after.led_data,
            color: after.color,
            prng: after.prng,
            ..self
        })
        &&& after.led_data@ == match animation {
            RgbAnimType::SolidColor(idx) => leds_filled(leds_off(n), indexed_color(idx)),
            _ => leds_off(n),
        }
        &&& after.prng.state == if animation is Input {
            crate::prng::xorshift(self.prng.state)
        } else {
            self.prng.state
        }
        &&& after.color == match animation {
            RgbAnimType::SolidColor(_) | RgbAnimType::Wheel | RgbAnimType::Pulse => self.color,
            RgbAnimType::Input => random_color(after.prng.state),
            _ => indexed_color(DEFAULT_COLOR_INDEX),
        }
    }

    /// Setting an animation: it is chosen and starts anew, with the leds off.
    pub open spec fn animation_set(self, after: RgbAnim, animation: RgbAnimType) -> bool {
        &&& after.led_data@ == leds_off(self.led_data@.len())
        &&& after == (RgbAnim {
            frame: 0,
            animation,
            saved_animation: if self.saved_animation is Some {
                Some(animation)
            } else {
                None
            },
            led_data: after.led_data,
            ..self
        })
    }

    /// Showing a solid color for a while: all leds get the color and the
    /// chosen animation is saved, unless the leds are off.
    pub open spec fn solid_shown(self, after: RgbAnim, color: u8) -> bool {
        if self.animation == RgbAnimType::Off {
            after == (RgbAnim { frame: 0, ..self })
        } else {
            &&& after.led_data@ == leds_filled(self.led_data@, indexed_color(color))
            &&& after == (RgbAnim {
                frame: 0,
                animation: RgbAnimType::SolidColor(color),
                saved_animation: Some(self.chosen()),
                led_data: after.led_data,
                ..self
            })
        }
    }

    /// The chosen animation is shown again, from its start.
    pub open spec fn restored(self) -> RgbAnim {
        RgbAnim { frame: 0, animation: self.chosen(), saved_animation: None, ..self }
    }

    /// Create a new RGB Animation, for a Charybdis Nano
    pub fn new(is_right: bool, seed: u32) -> (anim: Self)
        ensures
            anim.wf(),
            anim.board == Board::Cnano,
            anim.is_right == is_right,
            anim.frame == 0,
            anim.animation == RgbAnimType::SolidColor(0),
            anim.saved_animation is None,
            anim.led_data@ == leds_off(NUM_LEDS as nat),
            anim.color == indexed_color(DEFAULT_COLOR_INDEX),
            anim.prng.state == seed,
    {
        Self::on_board(Board::Cnano, is_right, seed)
    }

    /// Create a new RGB Animation, for the given keyboard
    pub fn on_board(board: Board, is_right: bool, seed: u32) -> (anim: Self)
        ensures
            anim.wf(),
            anim.board == board,
            anim.is_right == is_right,
            anim.frame == 0,
            anim.animation == RgbAnimType::SolidColor(0),
            anim.saved_animation is None,
            anim.led_data@ == leds_off(board_leds(board)),
            anim.color == indexed_color(DEFAULT_COLOR_INDEX),
            anim.prng.state == seed,
    {
        let num_leds: usize = match board {
            Board::Cnano => NUM_LEDS,
            Board::Dilemma => NUM_LEDS_DILEMMA,
        };
        let mut led_data: Vec<RGB8> = Vec::new();
        let mut k: usize = 0;
        while k < num_leds
            invariant
                k <= num_leds,
                led_data@ == leds_off(k as nat),
            decreases num_leds - k,
        {
            led_data.push(RGB8::default());
            assert(led_data@ =~= leds_off((k + 1) as nat));
            k = k + 1;
        }
        RgbAnim {
            frame: 0,
            animation: RgbAnimType::SolidColor(0),
            saved_animation: None,
            led_data,
            board,
            is_right,
            color: RGB8::indexed(DEFAULT_COLOR_INDEX),
            prng: XorShift32::new(seed),
        }
    }

    /// Whether a key of this side has a led
    pub fn key_has_led(&self, i: u8, j: u8) -> (b: bool)
        requires
            self.wf(),
        ensures
            b == key_has_led(self.board, self.is_right, i, j),
    {
        if i >= 4 {
            return false;
        }
        if self.is_right {
            if j < 5 || j > 9 {
                return false;
            }
        } else if j > 4 {
            return false;
        }
        self.get_led_index(i, j) < self.led_data.len()
    }

    /// Get the LED index for a key
    fn get_led_index(&self, i: u8, j: u8) -> (index: usize)
        requires
            key_on_side(self.is_right, i, j),
        ensures
            index == led_entry(self.board, self.is_right, i, j),
    {
        if self.is_right {
            match self.board {
                Board::Cnano => MATRIX_LED_RIGHT_CNANO[i as usize][(9 - j) as usize],
                Board::Dilemma => MATRIX_LED_RIGHT_DILEMMA[i as usize][(9 - j) as usize],
            }
        } else {
            match self.board {
                Board::Cnano => MATRIX_LED_LEFT_CNANO[i as usize][j as usize],
                Board::Dilemma => MATRIX_LED_LEFT_DILEMMA[i as usize][j as usize],
            }
        }
    }

    /// Reset the leds
    fn reset(&mut self)
        ensures
            *final(self) == (RgbAnim { led_data: final(self).led_data, ..*old(self) }),
            final(self).led_data@ == leds_off(old(self).led_data@.len()),
    {
        let mut k: usize = 0;
        while k < self.led_data.len()
            invariant
                k <= self.led_data@.len() == old(self).led_data@.len(),
                *self == (RgbAnim { led_data: self.led_data, ..*old(self) }),
                forall|n: int| 0 <= n < k ==> self.led_data@[n] == black(),
            decreases self.led_data@.len() - k,
        {
            self.led_data.set(k, RGB8::default());
            k = k + 1;
        }
        assert(self.led_data@ =~= leds_off(old(self).led_data@.len()));
    }

    /// Set color of all LEDs
    fn fill_color(&mut self, color: RGB8)
        ensures
            *final(self) == (RgbAnim { led_data: final(self).led_data, ..*old(self) }),
            final(self).led_data@ == leds_filled(old(self).led_data@, color),
    {
        let mut k: usize = 0;
        while k < self.led_data.len()
            invariant
                k <= self.led_data@.len() == old(self).led_data@.len(),
                *self == (RgbAnim { led_data: self.led_data, ..*old(self) }),
                forall|n: int| 0 <= n < k ==> self.led_data@[n] == color,
            decreases self.led_data@.len() - k,
        {
            self.led_data.set(k, color);
            k = k + 1;
        }
        assert(self.led_data@ =~= leds_filled(old(self).led_data@, color));
    }

    /// Tick the wheel animation
    fn tick_wheel(&mut self)
        ensures
            *final(self) == (RgbAnim { led_data: final(self).led_data, ..*old(self) }),
            final(self).led_data@ == leds_wheel(old(self).led_data@, old(self).frame),
    {
        let mut k: usize = 0;
        while k < self.led_data.len() && k < UNDERGLOW_LEDS
            invariant
                k <= self.led_data@.len() == old(self).led_data@.len(),
                k <= UNDERGLOW_LEDS,
                *self == (RgbAnim { led_data: self.led_data, ..*old(self) }),
                forall|n: int|
                    0 <= n < k ==> self.led_data@[n] == wheel_color(wheel_pos(n, self.frame)),
                forall|n: int|
                    k <= n < self.led_data@.len() ==> self.led_data@[n] == old(self).led_data@[n],
            decreases self.led_data@.len() - k,
        {
            let pos: u16 = (k as u16) * (MAX_LIGHT_LEVEL as u16) / (UNDERGLOW_LEDS as u16) + (
            self.frame as u16);
            self.led_data.set(k, wheel((pos % 256) as u8));
            k = k + 1;
        }
        assert(self.led_data@ =~= leds_wheel(old(self).led_data@, old(self).frame));
    }

    /// Tick the pulse Animation, in the given color
    fn tick_pulse(&mut self, color: RGB8)
        ensures
            *final(self) == (RgbAnim { led_data: final(self).led_data, ..*old(self) }),
            final(self).led_data@ == leds_filled(
                old(self).led_data@,
                pulse_color(color, old(self).frame),
            ),
    {
        let pulse_index: usize = (self.frame as usize) % 128;
        let pulse: u16 = PULSE_TABLE[pulse_index];
        proof {
            law_pulse_is_bounded(color, self.frame);
            lemma_dimmed(color.r as int, pulse as int);
            lemma_dimmed(color.g as int, pulse as int);
            lemma_dimmed(color.b as int, pulse as int);
        }
        let dimmed = RGB8 {
            r: ((color.r as u16) * pulse / 255) as u8,
            g: ((color.g as u16) * pulse / 255) as u8,
            b: ((color.b as u16) * pulse / 255) as u8,
        };
        self.fill_color(dimmed);
    }

    /// Set a random color as main color
    fn new_random_color(&mut self) -> (color: RGB8)
        ensures
            *final(self) == (RgbAnim { prng: final(self).prng, color, ..*old(self) }),
            final(self).prng.state == crate::prng::xorshift(old(self).prng.state),
            color == random_color(final(self).prng.state),
    {
        self.color = RGB8::from(self.prng.random());
        self.color
    }

    /// Tick the animation
    pub fn tick(&mut self) -> (leds: &Vec<RGB8>)
        requires
            old(self).wf(),
            old(self).animation matches RgbAnimType::SolidColor(idx) ==> idx < NUM_COLORS,
            old(self).animation matches RgbAnimType::PulseSolid(idx) ==> idx < NUM_COLORS,
        ensures
            final(self).wf(),
            leds@ == final(self).led_data@,
            old(self).ticked(*final(self)),
    {
        match self.animation {
            RgbAnimType::Off => self.reset(),
            RgbAnimType::SolidColor(idx) => self.fill_color(RGB8::indexed(idx)),
            RgbAnimType::Wheel => self.tick_wheel(),
            RgbAnimType::Pulse => {
                if self.frame % 128 == 0 {
                    self.new_random_color();
                }
                self.tick_pulse(self.color)
            },
            RgbAnimType::PulseSolid(idx) => self.tick_pulse(RGB8::indexed(idx)),
            RgbAnimType::Input => (),
            RgbAnimType::InputSolid(_) => (),
        }
        self.frame = self.frame.wrapping_add(1);
        &self.led_data
    }
}

proof fn lemma_dimmed(level: int, pulse: int)
    requires
        0 <= level <= 255,
        0 <= pulse <= 175,
    ensures
        0 <= level * pulse <= 255 * 175,
        0 <= level * pulse / 255 <= level,
{
    assert(0 <= level * pulse <= 255 * 175 && level * pulse <= level * 175) by (nonlinear_arith)
        requires
            0 <= level <= 255,
            0 <= pulse <= 175,
    ;
}

/// A pulse never makes a color brighter, and its level is at most the maximum.
pub proof fn law_pulse_is_bounded(color: RGB8, frame: u8)
    ensures
        PULSE_TABLE@[frame as int % 128] <= MAX_LIGHT_LEVEL,
        pulse_color(color, frame).r <= color.r,
        pulse_color(color, frame).g <= color.g,
        pulse_color(color, frame).b <= color.b,
{
    let pulse = PULSE_TABLE@[frame as int % 128] as int;
    lemma_dimmed(color.r as int, pulse);
    lemma_dimmed(color.g as int, pulse);
    lemma_dimmed(color.b as int, pulse);
}

impl RgbAnim {
    /// Highlight a key that is pressed, if the animation is about keys
    pub fn on_key_event(&mut self, i: u8, j: u8, is_press: bool)
        requires
            old(self).wf(),
            old(self).animation is Input || old(self).animation is InputSolid ==> key_has_led(
                old(self).board,
                old(self).is_right,
                i,
                j,
            ),
            old(self).animation matches RgbAnimType::InputSolid(color) ==> is_press ==> color
                < NUM_COLORS,
        ensures
            final(self).wf(),
            old(self).key_shown(*final(self), i, j, is_press),
    {
        match self.animation {
            RgbAnimType::Input => {
                let index: usize = self.get_led_index(i, j);
                let color = if is_press {
                    RGB8::from(self.prng.random())
                } else {
                    RGB8::default()
                };
                self.led_data.set(index, color);
            },
            RgbAnimType::InputSolid(color) => {
                let index: usize = self.get_led_index(i, j);
                let color = if is_press {
                    RGB8::indexed(color)
                } else {
                    RGB8::default()
                };
                self.led_data.set(index, color);
            },
            _ => {},
        }
    }

    /// Cycle to the next animation
    pub fn next_animation(&mut self) -> (animation: RgbAnimType)
        requires
            old(self).wf(),
        ensures
            final(self).wf(),
            animation == animation_after(old(self).chosen()),
            old(self).cycled(*final(self)),
    {
        // Reset the frame
        self.frame = 0;
        // Shutdown the leds
        self.reset();
        let anim = if let Some(saved_animation) = self.saved_animation {
            saved_animation
        } else {
            self.animation
        };
        match anim {
            RgbAnimType::Off => {
                self.animation = RgbAnimType::SolidColor(0);
                self.fill_color(RGB8::indexed(0));
            },
            RgbAnimType::SolidColor(0) => {
                self.animation = RgbAnimType::SolidColor(DEFAULT_COLOR_INDEX);
                self.fill_color(RGB8::indexed(DEFAULT_COLOR_INDEX));
            },
            RgbAnimType::SolidColor(_) => {
                self.animation = RgbAnimType::Wheel;
            },
            RgbAnimType::Wheel => {
                self.animation = RgbAnimType::Pulse;
            },
            RgbAnimType::Pulse => {
                self.animation = RgbAnimType::PulseSolid(DEFAULT_COLOR_INDEX);
                self.color = RGB8::indexed(DEFAULT_COLOR_INDEX);
            },
            RgbAnimType::PulseSolid(_) => {
                self.animation = RgbAnimType::Input;
                self.new_random_color();
            },
            RgbAnimType::Input => {
                self.animation = RgbAnimType::InputSolid(DEFAULT_COLOR_INDEX);
                self.color = RGB8::indexed(DEFAULT_COLOR_INDEX);
            },
            RgbAnimType::InputSolid(_) => {
                self.animation = RgbAnimType::Off;
                self.color = RGB8::indexed(DEFAULT_COLOR_INDEX);
            },
        }
        if self.saved_animation.is_some() {
            self.saved_animation = Some(self.animation);
        }
        self.animation
    }

    /// Set the Animation
    pub fn set_animation(&mut self, animation: RgbAnimType)
        requires
            old(self).wf(),
        ensures
            final(self).wf(),
            old(self).animation_set(*final(self), animation),
    {
        self.animation = animation;
        if self.saved_animation.is_some() {
            self.saved_animation = Some(animation);
        }
        self.frame = 0;
        self.reset();
    }

    /// Set the color of all leds to a solid color, temporarily.
    /// Where the leds are off, they stay so.
    pub fn temporarily_solid_color(&mut self, color: u8)
        requires
            old(self).wf(),
            old(self).animation != RgbAnimType::Off ==> color < NUM_COLORS,
        ensures
            final(self).wf(),
            old(self).solid_shown(*final(self), color),
    {
        self.frame = 0;
        if self.animation == RgbAnimType::Off {
            return;
        }
        if self.saved_animation.is_none() {
            self.saved_animation = Some(self.animation);
        }
        self.animation = RgbAnimType::SolidColor(color);
        self.fill_color(RGB8::indexed(color));
    }

    /// Restore the animation
    pub fn restore_animation(&mut self)
        requires
            old(self).wf(),
        ensures
            final(self).wf(),
            *final(self) == old(self).restored(),
    {
        self.frame = 0;
        if let Some(animation) = self.saved_animation {
            self.animation = animation;
            self.saved_animation = None;
        }
    }
}

/// The animation that is reached after a number of steps.
pub open spec fn animation_after_steps(animation: RgbAnimType, n: nat) -> RgbAnimType
    decreases n,
{
    if n == 0 {
        animation
    } else {
        animation_after(animation_after_steps(animation, (n - 1) as nat))
    }
}

/// From any animation on, the cycle goes through all kinds of animations: it comes to
/// the leds being off, and eight steps from there it is back.
pub proof fn law_animations_cycle(animation: RgbAnimType)
    ensures
        exists|n: nat| n < 8 && #[trigger] animation_after_steps(animation, n) == RgbAnimType::Off,
        animation_after_steps(RgbAnimType::Off, 8) == RgbAnimType::Off,
        forall|n: nat|
            0 < n < 8 ==> #[trigger] animation_after_steps(RgbAnimType::Off, n) != RgbAnimType::Off,
{
    reveal_with_fuel(animation_after_steps, 9);
    assert(animation_after_steps(animation, 0) == RgbAnimType::Off || animation_after_steps(
        animation,
        1,
    ) == RgbAnimType::Off || animation_after_steps(animation, 2) == RgbAnimType::Off
        || animation_after_steps(animation, 3) == RgbAnimType::Off || animation_after_steps(
        animation,
        4,
    ) == RgbAnimType::Off || animation_after_steps(animation, 5) == RgbAnimType::Off
        || animation_after_steps(animation, 6) == RgbAnimType::Off || animation_after_steps(
        animation,
        7,
    ) == RgbAnimType::Off);
    assert forall|n: nat| 0 < n < 8 implies #[trigger] animation_after_steps(RgbAnimType::Off, n)
        != RgbAnimType::Off by {
        assert(n == 1 || n == 2 || n == 3 || n == 4 || n == 5 || n == 6 || n == 7);
    }
}

/// The first led under the keys of the three main rows. On a Dilemma the underglow leds
/// come before it.
pub open spec fn first_main_led(board: Board) -> usize {
    match board {
        Board::Cnano => 0,
        Board::Dilemma => UNDERGLOW_LEDS,
    }
}

/// The main rows of the two sides mirror each other. Each key there has a led of its own,
/// one of fifteen in a row.
pub proof fn law_main_keys_have_leds_of_their_own(
    board: Board,
    i: u8,
    j: u8,
    other_i: u8,
    other_j: u8,
)
    requires
        i <= 2,
        j <= 4,
        other_i <= 2,
        other_j <= 4,
    ensures
        led_entry(board, false, i, j) == led_entry(board, true, i, (9 - j) as u8),
        first_main_led(board) <= led_entry(board, false, i, j) <= first_main_led(board) + 14,
        led_entry(board, false, i, j) == led_entry(board, false, other_i, other_j) ==> (i, j) == (
            other_i,
            other_j,
        ),
{
}

/// None of the fifteen leds under the main rows is left without a key.
pub proof fn law_main_leds_have_a_key(board: Board, led: usize)
    requires
        first_main_led(board) <= led <= first_main_led(board) + 14,
    ensures
        exists|i: u8, j: u8|
            i <= 2 && j <= 4 && #[trigger] led_entry(board, false, i, j) == led,
{
    assert(led_entry(board, false, 0, 0) == led || led_entry(board, false, 0, 1) == led
        || led_entry(board, false, 0, 2) == led || led_entry(board, false, 0, 3) == led
        || led_entry(board, false, 0, 4) == led || led_entry(board, false, 1, 0) == led
        || led_entry(board, false, 1, 1) == led || led_entry(board, false, 1, 2) == led
        || led_entry(board, false, 1, 3) == led || led_entry(board, false, 1, 4) == led
        || led_entry(board, false, 2, 0) == led || led_entry(board, false, 2, 1) == led
        || led_entry(board, false, 2, 2) == led || led_entry(board, false, 2, 3) == led
        || led_entry(board, false, 2, 4) == led);
}

/// The animations that the cycle comes to can all be shown and sent: their color, if
/// they have one, is known and fits in five bits.
pub proof fn law_cycled_animation_is_known(animation: RgbAnimType)
    ensures
        color_is_known(animation_after(animation)),
        anim_byte(animation_after(animation)) is Some,
{
}

/// However many solid colors are shown for a while, restoring brings back the
/// animation that was chosen before.
pub proof fn law_restore_undoes_solid_color(
    before: RgbAnim,
    first: RgbAnim,
    second: RgbAnim,
    color: u8,
    other: u8,
)
    requires
        before.solid_shown(first, color),
        first.solid_shown(second, other),
    ensures
        first.restored().animation == before.chosen(),
        second.restored().animation == before.chosen(),
        before.saved_animation is None ==> before.chosen() == before.animation,
{
}

/// The byte of an animation has its kind in the upper three bits, numbered in their order, and
/// the index of its color, if it has one, in the lower five. Only an index that does not fit
/// there cannot be written.
pub proof fn law_animation_byte_fields(anim: RgbAnimType, r: Result<u8, Error>)
    requires
        call_ensures(RgbAnimType::to_u8, (&anim,), r),
    ensures
        r is Err <==> match anim {
            RgbAnimType::SolidColor(c) => c >= 32,
            RgbAnimType::PulseSolid(c) => c >= 32,
            RgbAnimType::InputSolid(c) => c >= 32,
            _ => false,
        },
        r matches Err(e) ==> e == Error::Serialization,
        r matches Ok(b) ==> b as int / 32 == match anim {
            RgbAnimType::Off => 0int,
            RgbAnimType::SolidColor(_) => 1int,
            RgbAnimType::Wheel => 2int,
            RgbAnimType::Pulse => 3int,
            RgbAnimType::PulseSolid(_) => 4int,
            RgbAnimType::Input => 5int,
            RgbAnimType::InputSolid(_) => 6int,
        } && b as int % 32 == match anim {
            RgbAnimType::SolidColor(c) => c as int,
            RgbAnimType::PulseSolid(c) => c as int,
            RgbAnimType::InputSolid(c) => c as int,
            _ => 0int,
        },
{
}

/// A byte is read back as the animation that was written; only the eighth kind has no meaning.
pub proof fn law_animation_is_read_back(
    anim: RgbAnimType,
    b: u8,
    read: Result<RgbAnimType, Error>,
    value: u8,
    any: Result<RgbAnimType, Error>,
)
    requires
        call_ensures(RgbAnimType::to_u8, (&anim,), Ok::<u8, Error>(b)),
        call_ensures(RgbAnimType::from_u8, (b,), read),
        call_ensures(RgbAnimType::from_u8, (value,), any),
    ensures
        read == Ok::<RgbAnimType, Error>(anim),
        any is Err <==> value >= 224,
        any matches Err(e) ==> e == Error::Deserialization,
{
}

/// The colors of the layers, by their red, green and blue parts.
pub proof fn law_indexed_colors(i: u8, color: RGB8)
    requires
        i < 11,
        call_ensures(RGB8::indexed, (i,), color),
    ensures
        color.r == seq![0u8, 0x40, 0, 0x40, 0, 0x07, 0x07, 0x0f, 0x40, 0x40, 0xaf][i as int],
        color.g == seq![0u8, 0x10, 0x40, 0, 0, 0, 0x07, 0x0f, 0x30, 0, 0xaf][i as int],
        color.b == seq![0u8, 0, 0, 0x10, 0x40, 0, 0x07, 0, 0, 0, 0xaf][i as int],
{
}

/// A color made of a number takes its red, green and blue parts from the three upper bytes,
/// as far as the maximum light level has their bits.
pub proof fn law_color_of_a_number(i: u32)
    ensures
        random_color(i).r as u32 == (i >> 24) & 0xaf,
        random_color(i).g as u32 == (i >> 16) & 0xaf,
        random_color(i).b as u32 == (i >> 8) & 0xaf,
{
    assert(((i >> 24) as u8 & 0xaf) as u32 == (i >> 24) & 0xaf) by (bit_vector);
    assert(((i >> 16) as u8 & 0xaf) as u32 == (i >> 16) & 0xaf) by (bit_vector);
    assert(((i >> 8) as u8 & 0xaf) as u32 == (i >> 8) & 0xaf) by (bit_vector);
}

/// The wheel starts at red. Each step takes three from one part and gives it to the next: from
/// red to green for a third of the way, then from green to blue, then from blue to red.
pub proof fn law_wheel_goes_round(pos: u8, here: RGB8, next: RGB8)
    requires
        pos < 255,
        call_ensures(wheel, (pos,), here),
        call_ensures(wheel, ((pos + 1) as u8,), next),
    ensures
        pos == 0 ==> here.r == 255 && here.g == 0 && here.b == 0,
        pos < 85 ==> next.r == here.r - 3 && next.g == here.g + 3 && next.b == here.b,
        85 <= pos < 170 ==> next.r == here.r && next.g == here.g - 3 && next.b == here.b + 3,
        170 <= pos ==> next.r == here.r + 3 && next.g == here.g && next.b == here.b - 3,
{
}

/// Where the led of a key is. Under the main rows of a Charybdis Nano the leds go up and down
/// the columns, from the outside in; under those of a Dilemma they go to and fro along the
/// rows. Those of the thumb keys follow. The two sides mirror each other there, but for the
/// thumbs.
pub proof fn law_leds_follow_the_keys(i: u8, j: u8)
    requires
        i <= 3,
        j <= 4,
    ensures
        i <= 2 && (j == 0 || j == 2) ==> led_entry(Board::Cnano, false, i, j) == 3 * j + 2 - i,
        i <= 2 && (j == 1 || j == 3 || j == 4) ==> led_entry(Board::Cnano, false, i, j) == 3 * j
            + i,
        i == 0 ==> led_entry(Board::Dilemma, false, i, j) == 22 - j,
        i == 1 ==> led_entry(Board::Dilemma, false, i, j) == 23 + j,
        i == 2 ==> led_entry(Board::Dilemma, false, i, j) == 32 - j,
        i <= 2 ==> led_entry(Board::Cnano, true, i, (9 - j) as u8) == led_entry(
            Board::Cnano,
            false,
            i,
            j,
        ),
        i <= 2 ==> led_entry(Board::Dilemma, true, i, (9 - j) as u8) == led_entry(
            Board::Dilemma,
            false,
            i,
            j,
        ),
        i == 3 && j <= 2 ==> led_entry(Board::Cnano, false, i, j) == 15 + j,
        i == 3 && j >= 3 ==> led_entry(Board::Cnano, false, i, j) >= 18,
        i == 3 && j >= 2 ==> led_entry(Board::Dilemma, false, i, j) == 31 + j,
        i == 3 && j <= 1 ==> led_entry(Board::Dilemma, false, i, j) >= 36,
        i == 3 && j >= 3 ==> led_entry(Board::Cnano, true, i, (9 - j) as u8) == 12 + j,
        i == 3 && j <= 2 ==> led_entry(Board::Cnano, true, i, (9 - j) as u8) >= 18,
        i == 3 && j >= 3 ==> led_entry(Board::Dilemma, true, i, (9 - j) as u8) == 31 + j,
        i == 3 && j <= 2 ==> led_entry(Board::Dilemma, true, i, (9 - j) as u8) >= 36,
{
}

/// A key has a led exactly if it is on this side and its place in the row of leds exists.
pub proof fn law_has_a_led(anim: RgbAnim, i: u8, j: u8, b: bool)
    requires
        anim.wf(),
        call_ensures(RgbAnim::key_has_led, (&anim, i, j), b),
    ensures
        b ==> i <= 3 && (anim.is_right ==> 5 <= j <= 9) && (!anim.is_right ==> j <= 4),
        i <= 2 && (if anim.is_right {
            5 <= j <= 9
        } else {
            j <= 4
        }) ==> b,
        b ==> led_entry(anim.board, anim.is_right, i, j) < anim.led_data@.len(),
        i <= 3 && (if anim.is_right {
            5 <= j <= 9
        } else {
            j <= 4
        }) && led_entry(anim.board, anim.is_right, i, j) < anim.led_data@.len() ==> b,
{
    if i <= 2 && anim.is_right && 5 <= j <= 9 {
        law_leds_follow_the_keys(i, (9 - j) as u8);
    }
    if i <= 2 && !anim.is_right && j <= 4 {
        law_leds_follow_the_keys(i, j);
    }
}

/// What a tick shows: nothing where the leds are off, one color on all leds where it is solid,
/// and the keys as they are where the animation is about keys.
pub proof fn law_tick_shows_the_animation(
    anim: &mut RgbAnim,
    leds: &Vec<RGB8>,
    k: int,
    i: u8,
    color: RGB8,
)
    requires
        old(anim).wf(),
        call_ensures(RgbAnim::tick, (anim,), leds),
        0 <= k < old(anim).led_data@.len(),
        i < 11,
        call_ensures(RGB8::indexed, (i,), color),
    ensures
        leds@ == final(anim).led_data@,
        leds@.len() == old(anim).led_data@.len(),
        final(anim).frame == (old(anim).frame + 1) % 256,
        final(anim).animation == old(anim).animation,
        final(anim).saved_animation == old(anim).saved_animation,
        old(anim).animation == RgbAnimType::Off ==> leds@[k] == (RGB8 { r: 0, g: 0, b: 0 }),
        old(anim).animation == RgbAnimType::SolidColor(i) ==> leds@[k] == color,
        old(anim).animation is Input || old(anim).animation is InputSolid ==> leds@[k] == old(anim).led_data@[k],
        old(anim).animation != RgbAnimType::Pulse ==> final(anim).color == old(anim).color
            && final(anim).prng.state == old(anim).prng.state,
{
}

/// The wheel is spread over the underglow, one led in eighteen of its light levels after the
/// other, and turns by one position per tick. The other leds stay.
pub proof fn law_tick_turns_the_wheel(
    anim: &mut RgbAnim,
    leds: &Vec<RGB8>,
    k: int,
    pos: u8,
    color: RGB8,
)
    requires
        old(anim).wf(),
        old(anim).animation == RgbAnimType::Wheel,
        call_ensures(RgbAnim::tick, (anim,), leds),
        0 <= k < old(anim).led_data@.len(),
        pos == (k * 175 / 18 + old(anim).frame) % 256,
        call_ensures(wheel, (pos,), color),
    ensures
        k < 18 ==> leds@[k] == color,
        k >= 18 ==> leds@[k] == old(anim).led_data@[k],
{
}

/// Whether a part of a color is dimmed to a level out of 255, rounded down.
pub open spec fn is_dimmed(part: u8, level: int, dimmed: u8) -> bool {
    dimmed * 255 <= part * level < (dimmed + 1) * 255
}

/// A pulse shows one color on all leds, dimmed to the level of the frame: its own color, or a
/// random one that is drawn when a pulse begins, twice in 256 frames, and kept until the next.
pub proof fn law_tick_pulses(
    anim: &mut RgbAnim,
    other: &mut XorShift32,
    leds: &Vec<RGB8>,
    k: int,
    i: u8,
    own: RGB8,
    x: u32,
)
    requires
        old(anim).wf(),
        call_ensures(RgbAnim::tick, (anim,), leds),
        0 <= k < old(anim).led_data@.len(),
        i < 11,
        call_ensures(RGB8::indexed, (i,), own),
        old(other).state == old(anim).prng.state,
        call_ensures(XorShift32::random, (other,), x),
    ensures
        ({
            let level = PULSE_TABLE@[old(anim).frame as int % 128] as int;
            &&& old(anim).animation == RgbAnimType::PulseSolid(i) ==> is_dimmed(
                own.r,
                level,
                leds@[k].r,
            ) && is_dimmed(own.g, level, leds@[k].g) && is_dimmed(own.b, level, leds@[k].b)
            &&& old(anim).animation == RgbAnimType::Pulse ==> is_dimmed(
                final(anim).color.r,
                level,
                leds@[k].r,
            ) && is_dimmed(final(anim).color.g, level, leds@[k].g) && is_dimmed(
                final(anim).color.b,
                level,
                leds@[k].b,
            )
        }),
        old(anim).animation == RgbAnimType::Pulse && (old(anim).frame == 0 || old(anim).frame
            == 128) ==> final(anim).color == random_color(x) && final(anim).prng.state == x,
        old(anim).animation == RgbAnimType::Pulse && old(anim).frame != 0 && old(anim).frame != 128
            ==> final(anim).color == old(anim).color && final(anim).prng.state == old(anim).prng.state,
{
    let level = PULSE_TABLE@[old(anim).frame as int % 128] as int;
    law_pulse_is_bounded(own, old(anim).frame);
    lemma_dim_levels(own, level);
    lemma_dim_levels(final(anim).color, level);
}

proof fn lemma_dim_levels(color: RGB8, level: int)
    requires
        0 <= level <= 175,
    ensures
        is_dimmed(color.r, level, (color.r * level / 255) as u8),
        is_dimmed(color.g, level, (color.g * level / 255) as u8),
        is_dimmed(color.b, level, (color.b * level / 255) as u8),
{
    lemma_dimmed(color.r as int, level);
    lemma_dimmed(color.g as int, level);
    lemma_dimmed(color.b as int, level);
}

/// A key that is pressed lights its own led and no other one, in the color of the animation or
/// in a random one; when it is released, the led goes out. An animation that is not about keys
/// shows none of it.
pub proof fn law_pressed_key_lights_its_led(
    anim: &mut RgbAnim,
    other: &mut XorShift32,
    i: u8,
    j: u8,
    is_press: bool,
    k: int,
    idx: u8,
    own: RGB8,
    x: u32,
)
    requires
        old(anim).wf(),
        key_has_led(old(anim).board, old(anim).is_right, i, j),
        call_ensures(RgbAnim::on_key_event, (anim, i, j, is_press), ()),
        0 <= k < old(anim).led_data@.len(),
        idx < 11,
        call_ensures(RGB8::indexed, (idx,), own),
        old(other).state == old(anim).prng.state,
        call_ensures(XorShift32::random, (other,), x),
    ensures
        ({
            let led = led_entry(old(anim).board, old(anim).is_right, i, j);
            let lit = old(anim).animation is Input || old(anim).animation is InputSolid;
            &&& final(anim).led_data@.len() == old(anim).led_data@.len()
            &&& k != led || !lit ==> final(anim).led_data@[k] == old(anim).led_data@[k]
            &&& k == led && lit && !is_press ==> final(anim).led_data@[k] == (RGB8 {
                r: 0,
                g: 0,
                b: 0,
            })
            &&& k == led && is_press && old(anim).animation == RgbAnimType::InputSolid(idx)
                ==> final(anim).led_data@[k] == own
            &&& k == led && is_press && old(anim).animation == RgbAnimType::Input ==> final(anim).led_data@[k] == random_color(x) && final(anim).prng.state == x
        }),
        final(anim).animation == old(anim).animation,
        final(anim).frame == old(anim).frame,
        final(anim).color == old(anim).color,
{
}

/// The animations follow each other in a fixed order, starting from the one that is chosen,
/// and the one that is told is the one that is shown. It starts at its first frame.
pub proof fn law_next_animation_follows(anim: &mut RgbAnim, next: RgbAnimType)
    requires
        old(anim).wf(),
        call_ensures(RgbAnim::next_animation, (anim,), next),
    ensures
        ({
            let before = match old(anim).saved_animation {
                Some(saved) => saved,
                None => old(anim).animation,
            };
            &&& before == RgbAnimType::Off ==> next == RgbAnimType::SolidColor(0)
            &&& before == RgbAnimType::SolidColor(0) ==> next == RgbAnimType::SolidColor(9)
            &&& before is SolidColor && before != RgbAnimType::SolidColor(0) ==> next
                == RgbAnimType::Wheel
            &&& before == RgbAnimType::Wheel ==> next == RgbAnimType::Pulse
            &&& before == RgbAnimType::Pulse ==> next == RgbAnimType::PulseSolid(9)
            &&& before is PulseSolid ==> next == RgbAnimType::Input
            &&& before == RgbAnimType::Input ==> next == RgbAnimType::InputSolid(9)
            &&& before is InputSolid ==> next == RgbAnimType::Off
        }),
        final(anim).animation == next,
        final(anim).saved_animation == if old(anim).saved_animation is Some {
            Some(next)
        } else {
            None
        },
        final(anim).frame == 0,
{
}

/// What the leds show right after a change to the next animation: the solid color at once,
/// and nothing for any other one.
pub proof fn law_next_animation_starts_dark(
    anim: &mut RgbAnim,
    next: RgbAnimType,
    k: int,
    i: u8,
    color: RGB8,
    default: RGB8,
)
    requires
        old(anim).wf(),
        call_ensures(RgbAnim::next_animation, (anim,), next),
        0 <= k < old(anim).led_data@.len(),
        i < 11,
        call_ensures(RGB8::indexed, (i,), color),
        call_ensures(RGB8::indexed, (9u8,), default),
    ensures
        final(anim).led_data@.len() == old(anim).led_data@.len(),
        next == RgbAnimType::SolidColor(i) ==> final(anim).led_data@[k] == color,
        !(next is SolidColor) ==> final(anim).led_data@[k] == (RGB8 { r: 0, g: 0, b: 0 }),
        next is PulseSolid || next is InputSolid || next == RgbAnimType::Off ==> final(anim).color
            == default,
        next is SolidColor || next == RgbAnimType::Wheel || next == RgbAnimType::Pulse ==> final(anim).color == old(anim).color,
{
}

/// An animation that is set is shown from its first frame, with the leds off, and is the one
/// that is chosen.
pub proof fn law_set_animation_is_shown(anim: &mut RgbAnim, animation: RgbAnimType, k: int)
    requires
        old(anim).wf(),
        call_ensures(RgbAnim::set_animation, (anim, animation), ()),
        0 <= k < old(anim).led_data@.len(),
    ensures
        final(anim).animation == animation,
        final(anim).saved_animation matches Some(saved) ==> saved == animation,
        final(anim).saved_animation is Some <==> old(anim).saved_animation is Some,
        final(anim).frame == 0,
        final(anim).led_data@.len() == old(anim).led_data@.len(),
        final(anim).led_data@[k] == (RGB8 { r: 0, g: 0, b: 0 }),
        final(anim).color == old(anim).color,
{
}

/// A solid color that is shown for a while is shown on all leds, unless they are off, and what
/// was shown before can be brought back: restoring does so, from its first frame, however many
/// colors were shown in between.
pub proof fn law_solid_color_passes(
    anim: &mut RgbAnim,
    later: &mut RgbAnim,
    last: &mut RgbAnim,
    color: u8,
    other: u8,
    own: RGB8,
    k: int,
)
    requires
        old(anim).wf(),
        old(anim).saved_animation is None,
        color < 11,
        call_ensures(RgbAnim::temporarily_solid_color, (anim, color), ()),
        *old(later) == *final(anim),
        call_ensures(RgbAnim::temporarily_solid_color, (later, other), ()),
        *old(last) == *final(later),
        call_ensures(RgbAnim::restore_animation, (last,), ()),
        call_ensures(RGB8::indexed, (color,), own),
        0 <= k < old(anim).led_data@.len(),
    ensures
        old(anim).animation != RgbAnimType::Off ==> final(anim).animation
            == RgbAnimType::SolidColor(color) && final(anim).led_data@[k] == own,
        old(anim).animation == RgbAnimType::Off ==> final(anim).animation == RgbAnimType::Off
            && final(anim).led_data@[k] == old(anim).led_data@[k],
        final(last).animation == old(anim).animation,
        final(last).saved_animation is None,
        final(anim).frame == 0,
        final(last).frame == 0,
        final(last).led_data@ == final(later).led_data@,
{
}

/// New animations show no light, on as many leds as the keyboard has.
pub proof fn law_new_animations(
    board: Board,
    is_right: bool,
    seed: u32,
    anim: RgbAnim,
    k: int,
)
    requires
        call_ensures(RgbAnim::on_board, (board, is_right, seed), anim),
        0 <= k < anim.led_data@.len(),
    ensures
        board == Board::Cnano ==> anim.led_data@.len() == 18,
        board == Board::Dilemma ==> anim.led_data@.len() == 36,
        anim.led_data@[k] == (RGB8 { r: 0, g: 0, b: 0 }),
        anim.animation == RgbAnimType::SolidColor(0),
        anim.saved_animation is None,
        anim.is_right == is_right,
        anim.board == board,
        anim.prng.state == seed,
        anim.frame == 0,
{
}

/// The index of a color is known exactly if there is such a color.
pub proof fn law_known_colors(animation: RgbAnimType, b: bool)
    requires
        call_ensures(RgbAnimType::color_is_known, (&animation,), b),
    ensures
        b <==> match animation {
            RgbAnimType::SolidColor(c) => c <= 10,
            RgbAnimType::PulseSolid(c) => c <= 10,
            RgbAnimType::InputSolid(c) => c <= 10,
            _ => true,
        },
{
}

/// The change to the animation of the keys draws a random color, and no other change does.
pub proof fn law_next_animation_draws_a_color(
    anim: &mut RgbAnim,
    other: &mut XorShift32,
    next: RgbAnimType,
    x: u32,
)
    requires
        old(anim).wf(),
        call_ensures(RgbAnim::next_animation, (anim,), next),
        old(other).state == old(anim).prng.state,
        call_ensures(XorShift32::random, (other,), x),
    ensures
        next == RgbAnimType::Input ==> final(anim).color == random_color(x) && final(anim).prng.state == x,
        next != RgbAnimType::Input ==> final(anim).prng.state == old(anim).prng.state,
        final(anim).board == old(anim).board,
        final(anim).is_right == old(anim).is_right,
{
}

/// A color is made of its three parts, and the default one has no light.
pub proof fn law_color_is_its_parts(r: u8, g: u8, b: u8, color: RGB8, default: RGB8)
    requires
        call_ensures(RGB8::new, (r, g, b), color),
        call_ensures(RGB8::default, (), default),
    ensures
        color.r == r && color.g == g && color.b == b,
        default.r == 0 && default.g == 0 && default.b == 0,
{
}

/// The animations of a Charybdis Nano are those of that board.
pub proof fn law_new_is_on_a_charybdis(is_right: bool, seed: u32, anim: RgbAnim, same: RgbAnim)
    requires
        call_ensures(RgbAnim::new, (is_right, seed), anim),
        call_ensures(RgbAnim::on_board, (Board::Cnano, is_right, seed), same),
    ensures
        anim.led_data@ == same.led_data@,
        anim.animation == same.animation,
        anim.saved_animation == same.saved_animation,
        anim.board == same.board,
        anim.is_right == same.is_right,
        anim.color == same.color,
        anim.frame == same.frame,
        anim.prng.state == same.prng.state,
{
}

/// The upper three bits of a byte are the kind of the animation, and the lower five the index
/// of its color where it has one; they are ignored where it has none.
pub proof fn law_meaning_of_a_byte(value: u8, anim: RgbAnimType)
    requires
        call_ensures(RgbAnimType::from_u8, (value,), Ok::<RgbAnimType, Error>(anim)),
    ensures
        match anim {
            RgbAnimType::Off => value < 32,
            RgbAnimType::SolidColor(c) => value == 32 + c && c < 32,
            RgbAnimType::Wheel => 64 <= value < 96,
            RgbAnimType::Pulse => 96 <= value < 128,
            RgbAnimType::PulseSolid(c) => value == 128 + c && c < 32,
            RgbAnimType::Input => 160 <= value < 192,
            RgbAnimType::InputSolid(c) => value == 192 + c && c < 32,
        },
{
}

/// A solid color is shown on all leds, from the first frame on, and what was chosen is saved;
/// where the leds are off, they stay so.
pub proof fn law_solid_color_is_shown(anim: &mut RgbAnim, color: u8, own: RGB8, k: int)
    requires
        old(anim).wf(),
        color < 11,
        call_ensures(RgbAnim::temporarily_solid_color, (anim, color), ()),
        call_ensures(RGB8::indexed, (color,), own),
        0 <= k < old(anim).led_data@.len(),
    ensures
        final(anim).frame == 0,
        final(anim).led_data@.len() == old(anim).led_data@.len(),
        old(anim).animation != RgbAnimType::Off ==> {
            &&& final(anim).animation == RgbAnimType::SolidColor(color)
            &&& final(anim).led_data@[k] == own
            &&& final(anim).saved_animation == Some(
                match old(anim).saved_animation {
                    Some(saved) => saved,
                    None => old(anim).animation,
                },
            )
        },
        old(anim).animation == RgbAnimType::Off ==> {
            &&& final(anim).animation == RgbAnimType::Off
            &&& final(anim).led_data@[k] == old(anim).led_data@[k]
            &&& final(anim).saved_animation == old(anim).saved_animation
        },
        final(anim).color == old(anim).color,
        final(anim).prng.state == old(anim).prng.state,
{
}

/// Restoring shows what is saved, from its first frame, and saves nothing any more. Where
/// nothing is saved, what is shown starts anew.
pub proof fn law_saved_animation_is_restored(anim: &mut RgbAnim)
    requires
        old(anim).wf(),
        call_ensures(RgbAnim::restore_animation, (anim,), ()),
    ensures
        final(anim).animation == match old(anim).saved_animation {
            Some(saved) => saved,
            None => old(anim).animation,
        },
        final(anim).saved_animation is None,
        final(anim).frame == 0,
        final(anim).led_data@ == old(anim).led_data@,
        final(anim).color == old(anim).color,
        final(anim).prng.state == old(anim).prng.state,
{
}

} // verus!
