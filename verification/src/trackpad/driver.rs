//! Trackpad in absolute mode.
use vstd::prelude::*;

use crate::mouse_move::to_signed16;
use crate::trackpad::{resolve, saturating_i16_to_i8, scale_position};

verus! {

/// A packet of the sensor
#[derive(Debug, Clone, Copy, PartialEq, Eq, Structural)]
pub struct Reading {
    pub x: u16,
    pub y: u16,
    pub z: u16,
    pub buttons: u8,
    pub touch_down: bool,
}

impl Reading {
    /// What a packet means. The pad is touched unless its position is all zeros.
    pub open spec fn of_packet(data: Seq<u8>) -> Reading {
        let (x, y) = crate::trackpad::packet_position(data);
        Reading {
            x,
            y,
            z: (data[5] % 64) as u16,
            buttons: (data[0] % 64) as u8,
            touch_down: x != 0 || y != 0,
        }
    }

    /// The reading with its position scaled.
    pub open spec fn scaled_by(self, scale: u16) -> Reading {
        let (x, y) = crate::trackpad::scaled(self.x, self.y, scale);
        Reading { x, y, ..self }
    }

    /// Position from the corner of the pad
    pub fn resolve_abs(x: u16, y: u16) -> (r: (u16, u16))
        ensures
            r == crate::trackpad::resolved(x, y),
    {
        resolve(x, y)
    }
}

/// A move of the finger on the pad
#[derive(Debug, Clone, Copy, PartialEq, Eq, Structural)]
pub struct Movement {
    pub x: i8,
    pub y: i8,
    /// Pressure
    pub z: u16,
    pub touch_down: bool,
}

/// State of a trackpad, of the given diameter in mm
#[derive(Debug, Clone, Copy)]
pub struct Trackpad<const DIAMETER: u32> {
    /// Last position, scaled, while the pad is touched
    pub last_pos: Option<(u16, u16)>,
    /// Number of counts over the pad
    pub scale: u16,
    /// The scale when the pad was last touched
    pub last_scale: u16,
}

/// The difference between two positions, if it is to be reported: the scale has not
/// changed and neither part of the new position is zero.
pub open spec fn position_change(
    last_pos: Option<(u16, u16)>,
    scale: u16,
    last_scale: u16,
    x: u16,
    y: u16,
    touch_down: bool,
) -> (int, int) {
    match last_pos {
        Some((last_x, last_y)) if touch_down && last_scale != 0 && last_scale == scale && x != 0
            && y != 0 => (
            crate::trackpad::as_signed(x) - crate::trackpad::as_signed(last_x),
            crate::trackpad::as_signed(y) - crate::trackpad::as_signed(last_y),
        ),
        _ => (0, 0),
    }
}

/// Whether a difference fits in sixteen bits.
pub open spec fn change_fits(change: (int, int)) -> bool {
    i16::MIN <= change.0 <= i16::MAX && i16::MIN <= change.1 <= i16::MAX
}

impl<const DIAMETER: u32> Trackpad<DIAMETER> {
    /// The difference between a reading and the last position.
    pub open spec fn change(self, r: Reading) -> (int, int) {
        position_change(self.last_pos, self.scale, self.last_scale, r.x, r.y, r.touch_down)
    }

    /// The state after a reading.
    pub open spec fn after(self, r: Reading) -> Self {
        if r.touch_down {
            Trackpad { last_pos: Some((r.x, r.y)), last_scale: self.scale, ..self }
        } else {
            Trackpad { last_pos: None, ..self }
        }
    }

    /// The move that a packet tells.
    pub open spec fn movement_of(self, data: Seq<u8>) -> Movement {
        let r = Reading::of_packet(data).scaled_by(self.scale);
        let change = self.change(r);
        Movement {
            x: crate::trackpad::clamped(change.0, i8::MIN as int, i8::MAX as int) as i8,
            y: crate::trackpad::clamped(change.1, i8::MIN as int, i8::MAX as int) as i8,
            z: r.z,
            touch_down: r.touch_down,
        }
    }

    /// Create the state of a trackpad that is not touched, with 800 counts per inch
    pub fn new() -> (pad: Self)
        requires
            800 * DIAMETER * 10 <= u32::MAX,
        ensures
            pad == (Trackpad::<DIAMETER> {
                last_pos: None,
                scale: (crate::trackpad::counts_over_pad(800, DIAMETER as int) % 0x10000) as u16,
                last_scale: 0,
            }),
    {
        let counts: u32 = (800 * DIAMETER * 10) / 254;
        Trackpad { last_pos: None, scale: (counts % 0x10000) as u16, last_scale: 0 }
    }

    /// Read a packet of the sensor
    pub fn read_data(data: &[u8; 6]) -> (reading: Reading)
        ensures
            reading == Reading::of_packet(data@),
    {
        let buttons: u8 = data[0] % 64;
        let x: u16 = (data[2] as u16) + ((data[4] % 16) as u16) * 256;
        let y: u16 = (data[3] as u16) + ((data[4] / 16) as u16) * 256;
        let z: u16 = (data[5] % 64) as u16;
        let touch_down = x != 0 || y != 0;
        Reading { x, y, z, buttons, touch_down }
    }

    /// Scale a reading to the size of the pad
    pub fn scale_reading(&self, reading: Reading) -> (r: Reading)
        ensures
            r == reading.scaled_by(self.scale),
    {
        let (x, y) = scale_position(reading.x, reading.y, self.scale);
        Reading { x, y, z: reading.z, buttons: reading.buttons, touch_down: reading.touch_down }
    }

    /// The move of the finger, given a packet
    pub fn movement(&mut self, data: &[u8; 6]) -> (m: Movement)
        requires
            change_fits(old(self).change(Reading::of_packet(data@).scaled_by(old(self).scale))),
        ensures
            m == old(self).movement_of(data@),
            *final(self) == old(self).after(Reading::of_packet(data@).scaled_by(old(self).scale)),
    {
        let reading = Self::read_data(data);
        let reading = self.scale_reading(reading);
        let mut report_x: i8 = 0;
        let mut report_y: i8 = 0;
        if !reading.touch_down {
            self.last_pos = None;
        }
        if self.last_scale != 0 && self.last_scale == self.scale && reading.x != 0 && reading.y
            != 0 {
            if let Some((last_x, last_y)) = self.last_pos {
                report_x = saturating_i16_to_i8(to_signed16(reading.x) - to_signed16(last_x));
                report_y = saturating_i16_to_i8(to_signed16(reading.y) - to_signed16(last_y));
            }
        }
        if reading.touch_down {
            self.last_pos = Some((reading.x, reading.y));
            self.last_scale = self.scale;
        }
        Movement { x: report_x, y: report_y, z: reading.z, touch_down: reading.touch_down }
    }

    /// What to report for a move: what a glide asks for, if there is one, else the move
    /// itself, turned by a quarter
    pub fn oriented(m: Movement, glide: Option<(i8, i8)>) -> (report: (i8, i8))
        requires
            glide is None ==> m.x != i8::MIN,
            glide matches Some(g) ==> g.0 != i8::MIN,
        ensures
            report == match glide {
                Some(g) => (g.1, (-g.0) as i8),
                None => (m.y, (-m.x) as i8),
            },
    {
        let (report_x, report_y): (i8, i8) = match glide {
            Some((dx, dy)) => (dx, dy),
            None => (m.x, m.y),
        };
        (report_y, -report_x)
    }

    /// What to report for a packet, if there is one
    pub fn get_report(&mut self, packet: Option<[u8; 6]>) -> (report: Option<(i8, i8)>)
        requires
            packet matches Some(data) ==> {
                &&& change_fits(
                    old(self).change(Reading::of_packet(data@).scaled_by(old(self).scale)),
                )
                &&& old(self).movement_of(data@).x != i8::MIN
            },
        ensures
            packet is None ==> report is None && *final(self) == *old(self),
            packet matches Some(data) ==> {
                let m = old(self).movement_of(data@);
                &&& report == Some((m.y, (-m.x) as i8))
                &&& *final(self) == old(self).after(
                    Reading::of_packet(data@).scaled_by(old(self).scale),
                )
            },
    {
        match packet {
            Some(data) => {
                let m = self.movement(&data);
                Some(Self::oriented(m, None))
            },
            None => None,
        }
    }
}

/// As long as the pad has at most 32767 counts, every move on it can be told.
pub proof fn law_every_move_fits<const DIAMETER: u32>(pad: Trackpad<DIAMETER>, r: Reading)
    requires
        pad.scale <= i16::MAX,
        pad.last_pos matches Some((last_x, last_y)) ==> last_x <= i16::MAX && last_y <= i16::MAX,
    ensures
        change_fits(pad.change(r.scaled_by(pad.scale))),
        pad.after(r.scaled_by(pad.scale)).last_pos matches Some((last_x, last_y)) ==> last_x
            <= i16::MAX && last_y <= i16::MAX,
{
    crate::trackpad::law_scaled_stays_on_pad(r.x, r.y, pad.scale);
}

/// The first touch of the pad is no move, wherever it is.
pub proof fn law_first_touch_is_no_move<const DIAMETER: u32>(
    pad: Trackpad<DIAMETER>,
    lifted: Reading,
    touched: Reading,
)
    requires
        !lifted.touch_down,
    ensures
        pad.after(lifted).change(touched) == (0int, 0int),
{
}

/// What a packet tells: twelve bits for each direction, six for the pressure and six for the
/// buttons. The pad is touched unless both directions are zero.
pub proof fn law_packet_fields<const DIAMETER: u32>(data: [u8; 6], r: Reading)
    requires
        call_ensures(Trackpad::<DIAMETER>::read_data, (&data,), r),
    ensures
        r.x == data@[2] + 256 * (data@[4] as int % 16),
        r.y == data@[3] + 256 * (data@[4] as int / 16),
        r.z == data@[5] as int % 64,
        r.buttons == data@[0] as int % 64,
        r.touch_down <==> data@[2] != 0 || data@[3] != 0 || data@[4] != 0,
{
}

/// Whether `d` is a difference, or the nearest value of eight bits.
pub open spec fn is_saturated(d: i8, difference: int) -> bool {
    &&& -128 <= difference <= 127 ==> d == difference
    &&& difference < -128 ==> d == -128
    &&& difference > 127 ==> d == 127
}

/// While the pad stays touched at an unchanged scale, each direction of a move is the
/// difference of the positions in that direction, whatever the other one is. The position is
/// that of the packet, in counts.
pub proof fn law_slide_is_the_difference<const DIAMETER: u32>(
    pad: &mut Trackpad<DIAMETER>,
    data: [u8; 6],
    m: Movement,
    last: (u16, u16),
    x: u16,
    y: u16,
)
    requires
        call_ensures(Trackpad::<DIAMETER>::movement, (pad, &data), m),
        0 < old(pad).scale <= i16::MAX,
        old(pad).last_scale == old(pad).scale,
        old(pad).last_pos == Some(last),
        last.0 <= i16::MAX,
        last.1 <= i16::MAX,
        final(pad).last_pos == Some((x, y)),
        x != 0,
        y != 0,
    ensures
        is_saturated(m.x, x - last.0),
        is_saturated(m.y, y - last.1),
        crate::trackpad::is_scaled(
            (data@[2] + 256 * (data@[4] as int % 16)) as u16,
            127,
            1919,
            old(pad).scale,
            x,
        ),
        crate::trackpad::is_scaled(
            (data@[3] + 256 * (data@[4] as int / 16)) as u16,
            63,
            1471,
            old(pad).scale,
            y,
        ),
{
    let (px, py) = crate::trackpad::packet_position(data@);
    crate::trackpad::law_position_is_scaled(px, py, old(pad).scale);
    crate::trackpad::law_scaled_stays_on_pad(px, py, old(pad).scale);
}

/// The position of a touch is kept for the next packet, and is forgotten when the finger is
/// lifted. Pressure and touch are those of the packet.
pub proof fn law_position_is_kept<const DIAMETER: u32>(
    pad: &mut Trackpad<DIAMETER>,
    data: [u8; 6],
    m: Movement,
)
    requires
        call_ensures(Trackpad::<DIAMETER>::movement, (pad, &data), m),
    ensures
        final(pad).scale == old(pad).scale,
        m.z == data@[5] as int % 64,
        m.touch_down <==> data@[2] != 0 || data@[3] != 0 || data@[4] != 0,
        m.touch_down ==> (final(pad).last_pos matches Some((x, y)) && crate::trackpad::is_scaled(
            (data@[2] + 256 * (data@[4] as int % 16)) as u16,
            127,
            1919,
            old(pad).scale,
            x,
        ) && crate::trackpad::is_scaled(
            (data@[3] + 256 * (data@[4] as int / 16)) as u16,
            63,
            1471,
            old(pad).scale,
            y,
        )) && final(pad).last_scale == old(pad).scale,
        !m.touch_down ==> final(pad).last_pos is None && final(pad).last_scale == old(pad).last_scale,
{
    let (px, py) = crate::trackpad::packet_position(data@);
    crate::trackpad::law_position_is_scaled(px, py, old(pad).scale);
}

/// There is no move without a touch before, without a touch now, when the scale has changed
/// in between, or where a part of the new position is zero.
pub proof fn law_no_move_without_two_touches<const DIAMETER: u32>(
    pad: &mut Trackpad<DIAMETER>,
    data: [u8; 6],
    m: Movement,
)
    requires
        call_ensures(Trackpad::<DIAMETER>::movement, (pad, &data), m),
        old(pad).last_pos is None || old(pad).last_scale != old(pad).scale || old(pad).last_scale
            == 0 || !m.touch_down || (final(pad).last_pos matches Some((x, y)) && (x == 0 || y
            == 0)),
    ensures
        m.x == 0,
        m.y == 0,
{
}

/// The pad is mounted a quarter turn off: its second direction is the first one of the
/// report, and its first direction, reversed, the second one. A glide takes the place of the
/// move.
pub proof fn law_report_is_turned<const DIAMETER: u32>(
    m: Movement,
    glide: Option<(i8, i8)>,
    report: (i8, i8),
)
    requires
        call_ensures(Trackpad::<DIAMETER>::oriented, (m, glide), report),
        m.x != i8::MIN,
        glide matches Some(g) ==> g.0 != i8::MIN,
    ensures
        glide is None ==> report.0 == m.y && report.1 + m.x == 0,
        glide matches Some((dx, dy)) ==> report.0 == dy && report.1 + dx == 0,
{
}

/// What is reported for a packet while the pad stays touched: the differences of the
/// positions, turned by a quarter. Without a packet there is nothing to report.
pub proof fn law_report_of_a_slide<const DIAMETER: u32>(
    pad: &mut Trackpad<DIAMETER>,
    data: [u8; 6],
    report: Option<(i8, i8)>,
    last: (u16, u16),
    x: u16,
    y: u16,
)
    requires
        call_ensures(Trackpad::<DIAMETER>::get_report, (pad, Some(data)), report),
        0 < old(pad).scale <= i16::MAX,
        old(pad).last_scale == old(pad).scale,
        old(pad).last_pos == Some(last),
        last.0 <= i16::MAX,
        last.1 <= i16::MAX,
        x - last.0 >= -127,
        final(pad).last_pos == Some((x, y)),
        x != 0,
        y != 0,
    ensures
        report matches Some((dx, dy)) && is_saturated(dx, y - last.1)
            && is_saturated((-dy) as i8, x - last.0),
{
    let (px, py) = crate::trackpad::packet_position(data@);
    crate::trackpad::law_scaled_stays_on_pad(px, py, old(pad).scale);
}

/// Without a packet there is nothing to report, and the state stays.
pub proof fn law_no_packet_no_report<const DIAMETER: u32>(
    pad: &mut Trackpad<DIAMETER>,
    report: Option<(i8, i8)>,
)
    requires
        call_ensures(Trackpad::<DIAMETER>::get_report, (pad, None), report),
    ensures
        report is None,
        final(pad).last_pos == old(pad).last_pos,
        final(pad).last_scale == old(pad).last_scale,
        final(pad).scale == old(pad).scale,
{
}

/// A new pad has 800 counts per inch over its diameter, an inch being 25.4 mm, rounded down.
pub proof fn law_counts_of_a_new_pad<const DIAMETER: u32>(pad: Trackpad<DIAMETER>)
    requires
        call_ensures(Trackpad::<DIAMETER>::new, (), pad),
        0 < DIAMETER <= 2000,
    ensures
        254 * pad.scale <= 8000 * DIAMETER < 254 * (pad.scale + 1),
        pad.last_pos is None,
        pad.last_scale == 0,
{
}

/// A position is counted from the corner of the pad, within the range of the sensor.
pub proof fn law_position_from_the_corner(x: u16, y: u16, r: (u16, u16))
    requires
        call_ensures(Reading::resolve_abs, (x, y), r),
    ensures
        crate::trackpad::is_from_start(x, 127, 1919, r.0),
        crate::trackpad::is_from_start(y, 63, 1471, r.1),
{
}

/// A reading is scaled in proportion to the counts over the pad, each direction over its own
/// range; the rest of it stays.
pub proof fn law_reading_is_scaled<const DIAMETER: u32>(
    pad: Trackpad<DIAMETER>,
    reading: Reading,
    r: Reading,
)
    requires
        call_ensures(Trackpad::<DIAMETER>::scale_reading, (&pad, reading), r),
    ensures
        crate::trackpad::is_scaled(reading.x, 127, 1919, pad.scale, r.x),
        crate::trackpad::is_scaled(reading.y, 63, 1471, pad.scale, r.y),
        r.z == reading.z,
        r.buttons == reading.buttons,
        r.touch_down == reading.touch_down,
{
    crate::trackpad::law_position_is_scaled(reading.x, reading.y, pad.scale);
}

} // verus!
