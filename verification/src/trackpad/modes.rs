//! Trackpad with a choice of position modes and orientations.
use vstd::prelude::*;

use crate::mouse_move::to_signed16;
use crate::trackpad::{resolve, saturating_i16_to_i8, scale_position};

verus! {

/// Diameter of the sensor, in mm
pub const DIAMETER: u32 = 35;

/// Range of the horizontal moves
pub const REL_X_RANGE: u16 = 256;

/// Range of the vertical moves
pub const REL_Y_RANGE: u16 = 256;

/// How the pad is mounted
#[derive(Debug, Clone, Copy, PartialEq, Eq, Structural)]
pub enum TransformMode {
    Normal,
    Rotate90,
    Rotate180,
    Rotate270,
}

/// What covers the pad
#[derive(Debug, Clone, Copy, PartialEq, Eq, Structural)]
pub enum Overlay {
    Curved,
    Other,
}

/// What the pad tells: where it is touched or how the finger moves
#[derive(Debug, Clone, Copy, PartialEq, Eq, Structural)]
pub enum PositionMode {
    Absolute,
    Relative,
}

/// A move, turned.
pub open spec fn turned(mode: TransformMode, x: int, y: int) -> (int, int) {
    match mode {
        TransformMode::Normal => (x, y),
        TransformMode::Rotate90 => (y, -x),
        TransformMode::Rotate180 => (-x, -y),
        TransformMode::Rotate270 => (-y, x),
    }
}

/// Whether a move, once turned, fits in eight bits.
pub open spec fn can_be_turned(mode: TransformMode, x: i8, y: i8) -> bool {
    let (u, v) = turned(mode, x as int, y as int);
    u <= i8::MAX && v <= i8::MAX
}

impl TransformMode {
    /// Turn a move the way the pad is mounted
    pub fn transform(&self, x: i8, y: i8) -> (r: (i8, i8))
        requires
            can_be_turned(*self, x, y),
        ensures
            (r.0 as int, r.1 as int) == turned(*self, x as int, y as int),
    {
        match self {
            TransformMode::Normal => (x, y),
            TransformMode::Rotate90 => (y, -x),
            TransformMode::Rotate180 => (-x, -y),
            TransformMode::Rotate270 => (-y, x),
        }
    }

    /// Whether a move, once turned, fits in eight bits
    pub fn can_transform(&self, x: i8, y: i8) -> (b: bool)
        ensures
            b == can_be_turned(*self, x, y),
    {
        match self {
            TransformMode::Normal => true,
            TransformMode::Rotate90 => x != -128,
            TransformMode::Rotate180 => x != -128 && y != -128,
            TransformMode::Rotate270 => y != -128,
        }
    }
}

/// Four quarter turns, or a quarter turn there and back, leave a move as it was; two
/// quarter turns make a half turn.
pub proof fn law_turns_compose(x: int, y: int)
    ensures
        ({
            let (u, v) = turned(TransformMode::Rotate90, x, y);
            &&& turned(TransformMode::Rotate270, u, v) == (x, y)
            &&& turned(TransformMode::Rotate90, u, v) == turned(TransformMode::Rotate180, x, y)
            &&& turned(TransformMode::Rotate180, u, v) == turned(TransformMode::Rotate270, x, y)
        }),
        ({
            let (u, v) = turned(TransformMode::Rotate180, x, y);
            turned(TransformMode::Rotate180, u, v) == (x, y)
        }),
{
}

/// A packet of the sensor
#[derive(Debug, Clone, Copy, PartialEq, Eq, Structural)]
pub enum Reading {
    Absolute { x: u16, y: u16, z: u16, buttons: u8, touch_down: bool },
    Relative { dx: i16, dy: i16, wheel_count: i8, buttons: u8 },
}

/// The signed number of eight bits.
pub open spec fn signed8(b: u8) -> int {
    if b >= 0x80 {
        b - 0x100
    } else {
        b as int
    }
}

/// A number of nine bits: the sign and the low byte, where the sign counts only if the
/// byte is not zero.
pub open spec fn nine_bits(negative: bool, low: u8) -> int {
    if negative && low != 0 {
        low - 256
    } else {
        low as int
    }
}

impl Reading {
    /// What a packet means in a position mode. In relative mode, the vertical axis of the
    /// sensor points up.
    pub open spec fn of_packet(mode: PositionMode, data: Seq<u8>) -> Reading {
        match mode {
            PositionMode::Absolute => {
                let (x, y) = crate::trackpad::packet_position(data);
                Reading::Absolute {
                    x,
                    y,
                    z: (data[5] % 64) as u16,
                    buttons: (data[0] % 64) as u8,
                    touch_down: x != 0 || y != 0,
                }
            },
            PositionMode::Relative => Reading::Relative {
                dx: nine_bits((data[0] / 16) % 2 == 1, data[1]) as i16,
                dy: (-nine_bits((data[0] / 32) % 2 == 1, data[2])) as i16,
                wheel_count: signed8(data[2]) as i8,
                buttons: (data[0] % 8) as u8,
            },
        }
    }

    /// Position from the corner of the pad
    pub fn resolve_abs(x: u16, y: u16) -> (r: (u16, u16))
        ensures
            r == crate::trackpad::resolved(x, y),
    {
        resolve(x, y)
    }
}

/// The quotient, rounded towards zero.
pub open spec fn truncated_div(a: int, b: int) -> int {
    if a >= 0 {
        a / b
    } else {
        -((-a) / b)
    }
}

/// The low sixteen bits of a number, as a signed number.
pub open spec fn wrapped16(v: int) -> int {
    crate::mouse_move::signed16(v % 0x10000)
}

/// Calls `num::integer::div_rem`. Claimed: the quotient is rounded towards zero, and the
/// remainder is what is left.
#[verifier::external_body]
pub(crate) fn div_rem(a: i32, b: i32) -> (r: (i32, i32))
    requires
        b > 0,
    ensures
        r.0 == truncated_div(a as int, b as int),
        r.1 == a - truncated_div(a as int, b as int) * b,
{
    num::integer::div_rem(a, b)
}

fn low_i16(v: i32) -> (r: i16)
    ensures
        r == wrapped16(v as int),
{
    assert(v as i16 == {
        let low = v as u32 % 0x10000;
        if low >= 0x8000 {
            low - 0x10000
        } else {
            low as int
        }
    }) by (bit_vector);
    assert(v as u32 % 0x10000 == v as int % 0x10000) by {
        assert(v as u32 == if v < 0 {
            v + 0x100000000
        } else {
            v as int
        }) by (bit_vector);
    }
    v as i16
}

/// State of a trackpad
#[derive(Debug, Clone, Copy)]
pub struct Trackpad {
    pub position_mode: PositionMode,
    pub overlay: Overlay,
    pub transform: TransformMode,
    /// What is left of the moves that were scaled
    pub relative_remainder: (i16, i16),
    /// Last position, scaled, while the pad is touched
    pub last_pos: Option<(u16, u16)>,
    /// Number of counts over the pad
    pub scale: u16,
    /// The scale when the pad was last touched
    pub last_scale: u16,
}

impl Trackpad {
    /// A relative move and the remainder of those before, scaled but not yet divided.
    pub open spec fn raw_moves(self, dx: i16, dy: i16) -> (int, int) {
        (
            dx * self.scale + self.relative_remainder.0,
            dy * self.scale + self.relative_remainder.1,
        )
    }

    /// A reading, scaled.
    pub open spec fn scaled_reading(self, reading: Reading) -> Reading {
        match reading {
            Reading::Absolute { x, y, z, buttons, touch_down } => {
                let (x, y) = crate::trackpad::scaled(x, y, self.scale);
                Reading::Absolute { x, y, z, buttons, touch_down }
            },
            Reading::Relative { dx, dy, wheel_count, buttons } => {
                let (vx, vy) = self.raw_moves(dx, dy);
                Reading::Relative {
                    dx: wrapped16(truncated_div(vx, REL_X_RANGE as int)) as i16,
                    dy: wrapped16(truncated_div(vy, REL_Y_RANGE as int)) as i16,
                    wheel_count,
                    buttons,
                }
            },
        }
    }

    /// The remainder after a reading was scaled.
    pub open spec fn remainder_after(self, reading: Reading) -> (i16, i16) {
        match reading {
            Reading::Absolute { .. } => self.relative_remainder,
            Reading::Relative { dx, dy, .. } => {
                let (vx, vy) = self.raw_moves(dx, dy);
                (
                    (vx - truncated_div(vx, REL_X_RANGE as int) * REL_X_RANGE) as i16,
                    (vy - truncated_div(vy, REL_Y_RANGE as int) * REL_Y_RANGE) as i16,
                )
            },
        }
    }

    /// The difference to the last position that a scaled reading tells, or its move.
    pub open spec fn change(self, scaled: Reading) -> (int, int) {
        match scaled {
            Reading::Absolute { x, y, touch_down, .. } => crate::trackpad::driver::position_change(
                self.last_pos,
                self.scale,
                self.last_scale,
                x,
                y,
                touch_down,
            ),
            Reading::Relative { dx, dy, .. } => (dx as int, dy as int),
        }
    }

    /// The move that a packet tells.
    pub open spec fn movement_of(self, data: Seq<u8>) -> (i8, i8) {
        let scaled = self.scaled_reading(Reading::of_packet(self.position_mode, data));
        let change = self.change(scaled);
        (
            crate::trackpad::clamped(change.0, i8::MIN as int, i8::MAX as int) as i8,
            crate::trackpad::clamped(change.1, i8::MIN as int, i8::MAX as int) as i8,
        )
    }

    /// The state after a packet.
    pub open spec fn after(self, data: Seq<u8>) -> Trackpad {
        let reading = Reading::of_packet(self.position_mode, data);
        let scaled = self.scaled_reading(reading);
        let relative_remainder = self.remainder_after(reading);
        match scaled {
            Reading::Absolute { x, y, touch_down, .. } => if touch_down {
                Trackpad {
                    relative_remainder,
                    last_pos: Some((x, y)),
                    last_scale: self.scale,
                    ..self
                }
            } else {
                Trackpad { relative_remainder, last_pos: None, ..self }
            },
            Reading::Relative { .. } => Trackpad { relative_remainder, ..self },
        }
    }

    /// Create a new Trackpad driver
    pub fn new() -> (pad: Self)
        ensures
            pad == (Trackpad {
                position_mode: PositionMode::Absolute,
                overlay: Overlay::Curved,
                transform: TransformMode::Rotate90,
                relative_remainder: (0, 0),
                last_pos: None,
                scale: crate::trackpad::counts_over_pad(800, DIAMETER as int) as u16,
                last_scale: 0,
            }),
    {
        Trackpad {
            position_mode: PositionMode::Absolute,
            overlay: Overlay::Curved,
            transform: TransformMode::Rotate90,
            relative_remainder: (0, 0),
            last_pos: None,
            scale: ((800 * DIAMETER * 10) / 254) as u16,
            last_scale: 0,
        }
    }

    /// Set the resolution, in counts per inch
    pub fn set_scale(&mut self, cpi: u16)
        ensures
            *final(self) == (Trackpad {
                scale: (crate::trackpad::counts_over_pad(cpi as int, DIAMETER as int)
                    % 0x10000) as u16,
                ..*old(self)
            }),
    {
        let counts: u32 = (cpi as u32) * DIAMETER * 10 / 254;
        self.scale = (counts % 0x10000) as u16;
    }

    /// Whether the pad has to be calibrated at the start, given whether its gain has been
    /// changed
    pub fn should_calibrate(&self, gain_changed: bool) -> (b: bool)
        ensures
            b == (self.overlay == Overlay::Curved || gain_changed),
    {
        match self.overlay {
            Overlay::Curved => true,
            Overlay::Other => gain_changed,
        }
    }

    /// Read a packet of the sensor
    pub fn read_data(&self, data: &[u8; 6]) -> (reading: Reading)
        ensures
            reading == Reading::of_packet(self.position_mode, data@),
    {
        match self.position_mode {
            PositionMode::Absolute => {
                let buttons: u8 = data[0] % 64;
                let x: u16 = (data[2] as u16) + ((data[4] % 16) as u16) * 256;
                let y: u16 = (data[3] as u16) + ((data[4] / 16) as u16) * 256;
                let z: u16 = (data[5] % 64) as u16;
                let touch_down = x != 0 || y != 0;
                Reading::Absolute { x, y, z, buttons, touch_down }
            },
            PositionMode::Relative => {
                let buttons: u8 = data[0] % 8;
                let dx: i16 = if (data[0] / 16) % 2 == 1 && data[1] != 0 {
                    -(256i16 - data[1] as i16)
                } else {
                    data[1] as i16
                };
                let dy: i16 = if (data[0] / 32) % 2 == 1 && data[2] != 0 {
                    256i16 - data[2] as i16
                } else {
                    -(data[2] as i16)
                };
                let wheel_count: i8 = if data[2] >= 0x80 {
                    (data[2] as i16 - 0x100) as i8
                } else {
                    data[2] as i8
                };
                Reading::Relative { dx, dy, wheel_count, buttons }
            },
        }
    }

    /// Scale a reading to the resolution. What a relative move leaves is kept for the
    /// next one.
    pub fn scale_reading(&mut self, reading: Reading) -> (r: Reading)
        ensures
            r == old(self).scaled_reading(reading),
            *final(self) == (Trackpad {
                relative_remainder: old(self).remainder_after(reading),
                ..*old(self)
            }),
    {
        match reading {
            Reading::Absolute { x, y, z, buttons, touch_down } => {
                let (x, y) = scale_position(x, y, self.scale);
                Reading::Absolute { x, y, z, buttons, touch_down }
            },
            Reading::Relative { dx, dy, wheel_count, buttons } => {
                proof {
                    lemma_raw_move(dx as int, self.scale as int);
                    lemma_raw_move(dy as int, self.scale as int);
                }
                let (qx, rx) = div_rem(
                    (dx as i32) * (self.scale as i32) + (self.relative_remainder.0 as i32),
                    REL_X_RANGE as i32,
                );
                let (qy, ry) = div_rem(
                    (dy as i32) * (self.scale as i32) + (self.relative_remainder.1 as i32),
                    REL_Y_RANGE as i32,
                );
                self.relative_remainder = (rx as i16, ry as i16);
                Reading::Relative { dx: low_i16(qx), dy: low_i16(qy), wheel_count, buttons }
            },
        }
    }

    /// The move of the finger, given a packet
    pub fn movement(&mut self, data: &[u8; 6]) -> (m: (i8, i8))
        requires
            crate::trackpad::driver::change_fits(
                old(self).change(
                    old(self).scaled_reading(Reading::of_packet(old(self).position_mode, data@)),
                ),
            ),
        ensures
            m == old(self).movement_of(data@),
            *final(self) == old(self).after(data@),
    {
        let reading = self.read_data(data);
        let reading = self.scale_reading(reading);
        let mut report_x: i8 = 0;
        let mut report_y: i8 = 0;
        match reading {
            Reading::Absolute { x, y, touch_down, .. } => {
                if !touch_down {
                    self.last_pos = None;
                }
                if self.last_scale != 0 && self.last_scale == self.scale && x != 0 && y != 0 {
                    if let Some((last_x, last_y)) = self.last_pos {
                        report_x = saturating_i16_to_i8(to_signed16(x) - to_signed16(last_x));
                        report_y = saturating_i16_to_i8(to_signed16(y) - to_signed16(last_y));
                    }
                }
                if touch_down {
                    self.last_pos = Some((x, y));
                    self.last_scale = self.scale;
                }
            },
            Reading::Relative { dx, dy, .. } => {
                report_x = saturating_i16_to_i8(dx);
                report_y = saturating_i16_to_i8(dy);
            },
        }
        (report_x, report_y)
    }

    /// What to report for a packet, if there is one
    pub fn get_report(&mut self, packet: Option<[u8; 6]>) -> (report: Option<(i8, i8)>)
        requires
            packet matches Some(data) ==> {
                &&& crate::trackpad::driver::change_fits(
                    old(self).change(
                        old(self).scaled_reading(
                            Reading::of_packet(old(self).position_mode, data@),
                        ),
                    ),
                )
                &&& can_be_turned(
                    old(self).transform,
                    old(self).movement_of(data@).0,
                    old(self).movement_of(data@).1,
                )
            },
        ensures
            packet is None ==> report is None && *final(self) == *old(self),
            packet matches Some(data) ==> {
                let (x, y) = old(self).movement_of(data@);
                let (u, v) = turned(old(self).transform, x as int, y as int);
                &&& report == Some((u as i8, v as i8))
                &&& *final(self) == old(self).after(data@)
            },
    {
        match packet {
            Some(data) => {
                let (x, y) = self.movement(&data);
                Some(self.transform.transform(x, y))
            },
            None => None,
        }
    }
}

proof fn lemma_raw_move(d: int, scale: int)
    requires
        i16::MIN <= d <= i16::MAX,
        0 <= scale <= u16::MAX,
    ensures
        -32768 * 65535 <= d * scale <= 32768 * 65535,
{
    assert(-32768 * 65535 <= d * scale <= 32768 * 65535) by (nonlinear_arith)
        requires
            -32768 <= d <= 32767,
            0 <= scale <= 65535,
    ;
}

/// Scaling loses nothing of a relative move: what is not in the result is in the
/// remainder, which is less than one count.
pub proof fn law_remainder_is_carried(pad: Trackpad, dx: i16, dy: i16, wheel_count: i8, buttons: u8)
    ensures
        ({
            let reading = Reading::Relative { dx, dy, wheel_count, buttons };
            let (vx, vy) = pad.raw_moves(dx, dy);
            let (rx, ry) = pad.remainder_after(reading);
            &&& truncated_div(vx, 256) * 256 + rx == vx
            &&& truncated_div(vy, 256) * 256 + ry == vy
            &&& -256 < rx < 256
            &&& -256 < ry < 256
        }),
{
}

/// What a packet tells in absolute mode: twelve bits for each direction, six for the pressure
/// and six for the buttons. In relative mode: nine bits for each direction, the vertical one
/// pointing up, and three for the buttons.
pub proof fn law_packet_fields(pad: Trackpad, data: [u8; 6], r: Reading)
    requires
        call_ensures(Trackpad::read_data, (&pad, &data), r),
    ensures
        pad.position_mode == PositionMode::Absolute ==> (r matches Reading::Absolute {
            x,
            y,
            z,
            buttons,
            touch_down,
        } && x == data@[2] + 256 * (data@[4] as int % 16) && y == data@[3] + 256 * (data@[4] as int
            / 16) && z == data@[5] as int % 64 && buttons == data@[0] as int % 64 && (touch_down
            <==> data@[2] != 0 || data@[3] != 0 || data@[4] != 0)),
        pad.position_mode == PositionMode::Relative ==> (r matches Reading::Relative {
            dx,
            dy,
            wheel_count,
            buttons,
        } && (dx - data@[1]) % 256 == 0 && -256 < dx < 256 && (dx < 0 <==> data@[0] as int / 16 % 2
            == 1 && data@[1] != 0) && (dy + data@[2]) % 256 == 0 && -256 < dy < 256 && (dy > 0
            <==> data@[0] as int / 32 % 2 == 1 && data@[2] != 0) && (wheel_count - data@[2]) % 256
            == 0 && buttons == data@[0] as int % 8),
{
}

/// A relative move is scaled in proportion to the counts over the pad, and nothing of it is
/// lost: what is not told now is kept, less than one count and on the side that the move goes
/// to.
pub proof fn law_relative_move_is_scaled(
    pad: &mut Trackpad,
    dx: i16,
    dy: i16,
    wheel_count: i8,
    buttons: u8,
    r: Reading,
)
    requires
        call_ensures(
            Trackpad::scale_reading,
            (pad, Reading::Relative { dx, dy, wheel_count, buttons }),
            r,
        ),
        -512 <= dx <= 512,
        -512 <= dy <= 512,
        old(pad).scale <= 8192,
    ensures
        r matches Reading::Relative { dx: sx, dy: sy, wheel_count: w, buttons: b } && {
            let (old_x, old_y) = old(pad).relative_remainder;
            let (rest_x, rest_y) = final(pad).relative_remainder;
            &&& sx * 256 + rest_x == dx * old(pad).scale + old_x
            &&& sy * 256 + rest_y == dy * old(pad).scale + old_y
            &&& -256 < rest_x < 256
            &&& -256 < rest_y < 256
            &&& sx > 0 ==> rest_x >= 0
            &&& sx < 0 ==> rest_x <= 0
            &&& sy > 0 ==> rest_y >= 0
            &&& sy < 0 ==> rest_y <= 0
            &&& w == wheel_count
            &&& b == buttons
        },
        final(pad).last_pos == old(pad).last_pos,
        final(pad).scale == old(pad).scale,
{
    lemma_small_move(dx as int, old(pad).scale as int);
    lemma_small_move(dy as int, old(pad).scale as int);
    law_remainder_is_carried(*old(pad), dx, dy, wheel_count, buttons);
}

proof fn lemma_small_move(d: int, scale: int)
    requires
        -512 <= d <= 512,
        0 <= scale <= 8192,
    ensures
        -512 * 8192 <= d * scale <= 512 * 8192,
{
    assert(-512 * 8192 <= d * scale <= 512 * 8192) by (nonlinear_arith)
        requires
            -512 <= d <= 512,
            0 <= scale <= 8192,
    ;
}

/// An absolute position is scaled in proportion to the counts over the pad, each direction
/// over its own range; the rest of the reading stays.
pub proof fn law_absolute_position_is_scaled(
    pad: &mut Trackpad,
    x: u16,
    y: u16,
    z: u16,
    buttons: u8,
    touch_down: bool,
    r: Reading,
)
    requires
        call_ensures(
            Trackpad::scale_reading,
            (pad, Reading::Absolute { x, y, z, buttons, touch_down }),
            r,
        ),
    ensures
        r matches Reading::Absolute { x: sx, y: sy, z: sz, buttons: b, touch_down: t }
            && crate::trackpad::is_scaled(x, 127, 1919, old(pad).scale, sx)
            && crate::trackpad::is_scaled(y, 63, 1471, old(pad).scale, sy) && sz == z && b
            == buttons && t == touch_down,
        final(pad).relative_remainder == old(pad).relative_remainder,
{
    crate::trackpad::law_position_is_scaled(x, y, old(pad).scale);
}

/// In absolute mode, while the pad stays touched at an unchanged scale, each direction of a
/// move is the difference of the positions in that direction, whatever the other one is.
pub proof fn law_slide_is_the_difference(
    pad: &mut Trackpad,
    data: [u8; 6],
    m: (i8, i8),
    last: (u16, u16),
    x: u16,
    y: u16,
)
    requires
        call_ensures(Trackpad::movement, (pad, &data), m),
        old(pad).position_mode == PositionMode::Absolute,
        0 < old(pad).scale <= i16::MAX,
        old(pad).last_scale == old(pad).scale,
        old(pad).last_pos == Some(last),
        last.0 <= i16::MAX,
        last.1 <= i16::MAX,
        final(pad).last_pos == Some((x, y)),
        x != 0,
        y != 0,
    ensures
        crate::trackpad::driver::is_saturated(m.0, x - last.0),
        crate::trackpad::driver::is_saturated(m.1, y - last.1),
{
    let (px, py) = crate::trackpad::packet_position(data@);
    crate::trackpad::law_scaled_stays_on_pad(px, py, old(pad).scale);
}

/// In absolute mode the position of a touch is kept for the next packet, and is forgotten when
/// the finger is lifted.
pub proof fn law_position_is_kept(pad: &mut Trackpad, data: [u8; 6], m: (i8, i8))
    requires
        call_ensures(Trackpad::movement, (pad, &data), m),
        old(pad).position_mode == PositionMode::Absolute,
    ensures
        data@[2] != 0 || data@[3] != 0 || data@[4] != 0 ==> (final(pad).last_pos matches Some((x, y))
            && crate::trackpad::is_scaled(
            (data@[2] + 256 * (data@[4] as int % 16)) as u16,
            127,
            1919,
            old(pad).scale,
            x,
        ) && crate::trackpad::is_scaled(
            (data@[3] + 256 * (data@[4] as int / 16)) as u16,
            63,
            1471,
            old(pad).scale,
            y,
        )) && final(pad).last_scale == old(pad).scale,
        data@[2] == 0 && data@[3] == 0 && data@[4] == 0 ==> final(pad).last_pos is None && m == (
            0i8,
            0i8,
        ),
        old(pad).last_pos is None ==> m == (0i8, 0i8),
        final(pad).scale == old(pad).scale,
        final(pad).transform == old(pad).transform,
{
    let (px, py) = crate::trackpad::packet_position(data@);
    crate::trackpad::law_position_is_scaled(px, py, old(pad).scale);
}

/// In relative mode the move is the one of the packet, scaled: what is told, or would be if
/// it fitted in eight bits, and what is kept make up the whole.
pub proof fn law_relative_move_is_told(
    pad: &mut Trackpad,
    data: [u8; 6],
    m: (i8, i8),
    other: &mut Trackpad,
    reading: Reading,
    scaled: Reading,
)
    requires
        call_ensures(Trackpad::movement, (pad, &data), m),
        old(pad).position_mode == PositionMode::Relative,
        *old(other) == *old(pad),
        call_ensures(Trackpad::read_data, (&*old(pad), &data), reading),
        call_ensures(Trackpad::scale_reading, (other, reading), scaled),
    ensures
        scaled matches Reading::Relative { dx, dy, .. } && crate::trackpad::driver::is_saturated(
            m.0,
            dx as int,
        ) && crate::trackpad::driver::is_saturated(m.1, dy as int),
        final(pad).relative_remainder == final(other).relative_remainder,
        final(pad).last_pos == old(pad).last_pos,
{
}

/// How a move is turned: not at all, by a quarter, by a half or by three quarters.
pub proof fn law_move_is_turned(mode: TransformMode, x: i8, y: i8, can: bool, r: (i8, i8))
    requires
        call_ensures(TransformMode::can_transform, (&mode, x, y), can),
        call_ensures(TransformMode::transform, (&mode, x, y), r),
        x > -128,
        y > -128,
    ensures
        can,
        mode == TransformMode::Normal ==> r.0 == x && r.1 == y,
        mode == TransformMode::Rotate90 ==> r.0 == y && r.1 + x == 0,
        mode == TransformMode::Rotate180 ==> r.0 + x == 0 && r.1 + y == 0,
        mode == TransformMode::Rotate270 ==> r.0 + y == 0 && r.1 == x,
{
}

/// What is reported for a packet is the move that it tells, turned the way the pad is mounted.
pub proof fn law_report_is_the_move_turned(
    pad: &mut Trackpad,
    other: &mut Trackpad,
    data: [u8; 6],
    report: Option<(i8, i8)>,
    m: (i8, i8),
    turned_move: (i8, i8),
)
    requires
        call_ensures(Trackpad::get_report, (pad, Some(data)), report),
        *old(other) == *old(pad),
        call_ensures(Trackpad::movement, (other, &data), m),
        can_be_turned(old(pad).transform, m.0, m.1),
        call_ensures(TransformMode::transform, (&old(pad).transform, m.0, m.1), turned_move),
    ensures
        report == Some(turned_move),
        *final(pad) == *final(other),
{
}

/// The scale is the number of counts over the 35 mm of the pad, an inch being 25.4 mm, rounded
/// down.
pub proof fn law_scale_of_a_resolution(pad: &mut Trackpad, cpi: u16)
    requires
        call_ensures(Trackpad::set_scale, (pad, cpi), ()),
        cpi <= 47000,
    ensures
        254 * final(pad).scale <= 350 * cpi < 254 * (final(pad).scale + 1),
        final(pad).last_pos == old(pad).last_pos,
        final(pad).transform == old(pad).transform,
        final(pad).position_mode == old(pad).position_mode,
{
}

/// A new pad tells positions, has 800 counts per inch and is not touched.
pub proof fn law_new_pad(pad: Trackpad, calibrate: bool)
    requires
        call_ensures(Trackpad::new, (), pad),
        call_ensures(Trackpad::should_calibrate, (&pad, false), calibrate),
    ensures
        pad.position_mode == PositionMode::Absolute,
        pad.transform == TransformMode::Rotate90,
        pad.last_pos is None,
        pad.relative_remainder == (0i16, 0i16),
        254 * pad.scale <= 350 * 800 < 254 * (pad.scale + 1),
        calibrate,
{
}

/// In absolute mode there is no move without a touch before, when the scale has changed in
/// between, or where a part of the new position is zero.
pub proof fn law_no_move_without_two_touches(pad: &mut Trackpad, data: [u8; 6], m: (i8, i8))
    requires
        call_ensures(Trackpad::movement, (pad, &data), m),
        old(pad).position_mode == PositionMode::Absolute,
        old(pad).last_pos is None || old(pad).last_scale != old(pad).scale || old(pad).last_scale
            == 0 || (final(pad).last_pos matches Some((x, y)) && (x == 0 || y == 0)),
    ensures
        m == (0i8, 0i8),
{
}

/// Without a packet there is nothing to report, and the state stays.
pub proof fn law_no_packet_no_report(pad: &mut Trackpad, report: Option<(i8, i8)>)
    requires
        call_ensures(Trackpad::get_report, (pad, None), report),
    ensures
        report is None,
        *final(pad) == *old(pad),
{
}

/// A position is counted from the corner of the pad, within the range of the sensor.
pub proof fn law_position_from_the_corner(x: u16, y: u16, r: (u16, u16))
    requires
        call_ensures(Reading::resolve_abs, (x, y), r),
    ensures
        crate::trackpad::is_from_start(x, 127, 1919, r.0),
        crate::trackpad::is_from_start(y, 63, 1471, r.1),
{
}

} // verus!
