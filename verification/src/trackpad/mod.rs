//! Decisions of the trackpad drivers: what the packets of the sensor mean.
use vstd::prelude::*;

use crate::mouse::MouseMove;

pub mod driver;
pub mod modes;

verus! {

/// Smallest horizontal position
pub const ABS_X_MIN: u16 = 127;

/// Largest horizontal position
pub const ABS_X_MAX: u16 = 1919;

/// Range of the horizontal positions
pub const ABS_X_RANGE: u16 = 1792;

/// Smallest vertical position
pub const ABS_Y_MIN: u16 = 63;

/// Largest vertical position
pub const ABS_Y_MAX: u16 = 1471;

/// Range of the vertical positions
pub const ABS_Y_RANGE: u16 = 1408;

/// Mark of a register that is written
pub const WRITE_MASK: u8 = 0x80;

/// Mark of a register that is read
pub const READ_MASK: u8 = 0xA0;

/// Byte to send while bytes are received
pub const FILLER_BYTE: u8 = 0xFC;

/// A value within the given limits, or the limit that it exceeds.
pub open spec fn clamped(v: int, min: int, max: int) -> int {
    if v < min {
        min
    } else if v > max {
        max
    } else {
        v
    }
}

/// A position, counted from the corner of the pad.
pub open spec fn resolved(x: u16, y: u16) -> (u16, u16) {
    (
        (clamped(x as int, ABS_X_MIN as int, ABS_X_MAX as int) - ABS_X_MIN) as u16,
        (clamped(y as int, ABS_Y_MIN as int, ABS_Y_MAX as int) - ABS_Y_MIN) as u16,
    )
}

/// A position of the sensor, scaled to the number of counts over the pad.
pub open spec fn scaled(x: u16, y: u16, scale: u16) -> (u16, u16) {
    (
        (resolved(x, y).0 * scale / ABS_X_RANGE as int) as u16,
        (resolved(x, y).1 * scale / ABS_Y_RANGE as int) as u16,
    )
}

/// The position in a packet: twelve bits for each direction.
pub open spec fn packet_position(data: Seq<u8>) -> (u16, u16) {
    (
        (data[2] + (data[4] % 16) * 256) as u16,
        (data[3] + (data[4] / 16) * 256) as u16,
    )
}

/// The sixteen bits of a count, as a signed number.
pub open spec fn as_signed(v: u16) -> int {
    crate::mouse_move::signed16(v as int)
}

/// The number of counts over a pad of the given diameter, in mm, for a resolution in
/// counts per inch.
pub open spec fn counts_over_pad(cpi: int, diameter: int) -> int {
    cpi * diameter * 10 / 254
}

/// Position from the corner of the pad
pub(crate) fn resolve(x: u16, y: u16) -> (r: (u16, u16))
    ensures
        r == resolved(x, y),
        r.0 <= ABS_X_RANGE,
        r.1 <= ABS_Y_RANGE,
{
    let x: u16 = if x < ABS_X_MIN {
        ABS_X_MIN
    } else if x > ABS_X_MAX {
        ABS_X_MAX
    } else {
        x
    };
    let y: u16 = if y < ABS_Y_MIN {
        ABS_Y_MIN
    } else if y > ABS_Y_MAX {
        ABS_Y_MAX
    } else {
        y
    };
    (x - ABS_X_MIN, y - ABS_Y_MIN)
}

proof fn lemma_scaled(v: int, scale: int, range: int)
    requires
        0 <= v <= range,
        0 < range <= 1792,
        0 <= scale <= 65535,
    ensures
        0 <= v * scale <= 1792 * 65535,
        0 <= v * scale / range <= scale,
{
    assert(0 <= v * scale <= range * scale && range * scale <= 1792 * 65535) by (nonlinear_arith)
        requires
            0 <= v <= range,
            0 < range <= 1792,
            0 <= scale <= 65535,
    ;
    assert(0 <= v * scale / range <= scale) by (nonlinear_arith)
        requires
            0 <= v * scale <= range * scale,
            0 < range,
    ;
}

/// Scale a position of the sensor
pub(crate) fn scale_position(x: u16, y: u16, scale: u16) -> (r: (u16, u16))
    ensures
        r == scaled(x, y, scale),
        r.0 <= scale,
        r.1 <= scale,
{
    let (x, y) = resolve(x, y);
    proof {
        lemma_scaled(x as int, scale as int, ABS_X_RANGE as int);
        lemma_scaled(y as int, scale as int, ABS_Y_RANGE as int);
    }
    (
        ((x as u32) * (scale as u32) / (ABS_X_RANGE as u32)) as u16,
        ((y as u32) * (scale as u32) / (ABS_Y_RANGE as u32)) as u16,
    )
}

/// The nearest value of eight bits
pub fn saturating_i16_to_i8(v: i16) -> (r: i8)
    ensures
        r == clamped(v as int, i8::MIN as int, i8::MAX as int),
{
    if v < -128 {
        -128
    } else if v > 127 {
        127
    } else {
        v as i8
    }
}

/// The bytes to send to read a register
pub fn rap_read_command(address: u8) -> (bytes: [u8; 3])
    ensures
        bytes@ == seq![address | READ_MASK, FILLER_BYTE, FILLER_BYTE],
{
    let bytes: [u8; 3] = [address | READ_MASK, FILLER_BYTE, FILLER_BYTE];
    assert(bytes@ =~= seq![address | READ_MASK, FILLER_BYTE, FILLER_BYTE]);
    bytes
}

/// The byte that starts the write of a register
pub fn rap_write_command(address: u8) -> (byte: u8)
    ensures
        byte == address | WRITE_MASK,
{
    address | WRITE_MASK
}

/// The bytes of an address in the extended registers, high byte first
pub fn era_address_bytes(address: u16) -> (bytes: (u8, u8))
    ensures
        bytes.0 * 256 + bytes.1 == address,
{
    ((address / 256) as u8, (address % 256) as u8)
}

/// Tells the moves of the trackpad that differ from the one before
#[derive(Debug, Clone, Copy, PartialEq, Eq, Structural)]
pub struct MoveFilter {
    /// Last Dx value
    pub last_dx: i8,
    /// Last Dy value
    pub last_dy: i8,
}

impl MoveFilter {
    /// Create a filter; the pad is at rest
    pub fn new() -> (filter: Self)
        ensures
            filter == (MoveFilter { last_dx: 0, last_dy: 0 }),
    {
        MoveFilter { last_dx: 0, last_dy: 0 }
    }

    /// A report of the trackpad, with the pressure on it: tells the move, if it is not the
    /// same as the last one
    pub fn on_report(&mut self, dx: i8, dy: i8, pressure: u8) -> (r: Option<MouseMove>)
        ensures
            r == if dx == old(self).last_dx && dy == old(self).last_dy {
                None
            } else {
                Some(MouseMove { dx: dx as i16, dy: dy as i16, pressure })
            },
            *final(self) == (MoveFilter { last_dx: dx, last_dy: dy }),
    {
        if self.last_dx != dx || self.last_dy != dy {
            self.last_dx = dx;
            self.last_dy = dy;
            Some(MouseMove { dx: dx as i16, dy: dy as i16, pressure })
        } else {
            None
        }
    }
}

/// However the sensor is touched, the scaled position is on the pad.
pub proof fn law_scaled_stays_on_pad(x: u16, y: u16, scale: u16)
    ensures
        scaled(x, y, scale).0 <= scale,
        scaled(x, y, scale).1 <= scale,
{
    lemma_scaled(resolved(x, y).0 as int, scale as int, ABS_X_RANGE as int);
    lemma_scaled(resolved(x, y).1 as int, scale as int, ABS_Y_RANGE as int);
}

/// A value that fits in eight bits stays as it is; any other becomes the nearest that fits.
pub proof fn law_nearest_value_of_eight_bits(v: i16, r: i8)
    requires
        call_ensures(saturating_i16_to_i8, (v,), r),
    ensures
        -128 <= v <= 127 ==> r == v,
        v < -128 ==> r == -128,
        v > 127 ==> r == 127,
{
}

/// Whether a position in counts is that of the sensor: the reading, limited to the range of
/// the sensor and counted from its start, in proportion to the counts over the pad and
/// rounded down.
pub open spec fn is_scaled(reading: u16, low: int, high: int, scale: u16, counts: u16) -> bool {
    let from_start = if reading <= low {
        0
    } else if reading >= high {
        high - low
    } else {
        reading - low
    };
    counts * (high - low) <= from_start * scale < (counts + 1) * (high - low)
}

/// A position is scaled in proportion: the edges of the sensor are the edges of the pad, and
/// each direction has its own range.
pub proof fn law_position_is_scaled(x: u16, y: u16, scale: u16)
    ensures
        is_scaled(x, 127, 1919, scale, scaled(x, y, scale).0),
        is_scaled(y, 63, 1471, scale, scaled(x, y, scale).1),
{
    lemma_proportion(resolved(x, y).0 as int, scale as int, 1792);
    lemma_proportion(resolved(x, y).1 as int, scale as int, 1408);
}

proof fn lemma_proportion(v: int, scale: int, range: int)
    requires
        0 <= v <= range,
        0 < range <= 1792,
        0 <= scale <= 65535,
    ensures
        0 <= v * scale / range <= scale,
        (v * scale / range) * range <= v * scale < (v * scale / range + 1) * range,
{
    lemma_scaled(v, scale, range);
    assert((v * scale / range) * range <= v * scale < (v * scale / range + 1) * range)
        by (nonlinear_arith)
        requires
            0 < range,
    ;
}

/// A report is told exactly if it differs from the one before, as it is and with the
/// pressure on the pad.
pub proof fn law_move_is_told_if_it_differs(
    filter: &mut MoveFilter,
    dx: i8,
    dy: i8,
    pressure: u8,
    r: Option<MouseMove>,
)
    requires
        call_ensures(MoveFilter::on_report, (filter, dx, dy, pressure), r),
    ensures
        r is Some <==> dx != old(filter).last_dx || dy != old(filter).last_dy,
        r matches Some(m) ==> m.dx == dx && m.dy == dy && m.pressure == pressure,
        final(filter).last_dx == dx,
        final(filter).last_dy == dy,
{
}

/// How registers are addressed: to read one, its address is marked and two fillers follow; to
/// write one, it is marked otherwise. The addresses of the extended registers go high byte
/// first.
pub proof fn law_register_commands(
    address: u8,
    extended: u16,
    read: [u8; 3],
    write: u8,
    bytes: (u8, u8),
)
    requires
        address < 32,
        call_ensures(rap_read_command, (address,), read),
        call_ensures(rap_write_command, (address,), write),
        call_ensures(era_address_bytes, (extended,), bytes),
    ensures
        read@ == seq![(0xA0 + address) as u8, 0xFCu8, 0xFCu8],
        write == 0x80 + address,
        bytes.0 as int == extended as int / 256,
        bytes.1 as int == extended as int % 256,
{
    assert(address | 0xA0 == 0xA0 + address) by (bit_vector)
        requires
            address < 32,
    ;
    assert(address | 0x80 == 0x80 + address) by (bit_vector)
        requires
            address < 32,
    ;
    assert(read@ =~= seq![(0xA0 + address) as u8, 0xFCu8, 0xFCu8]);
}

/// A new filter takes the pad to be at rest.
pub proof fn law_new_filter_is_at_rest(filter: MoveFilter)
    requires
        call_ensures(MoveFilter::new, (), filter),
    ensures
        filter.last_dx == 0,
        filter.last_dy == 0,
{
}

/// Whether a position is that of the sensor, limited to its range and counted from its start.
pub open spec fn is_from_start(reading: u16, low: int, high: int, position: u16) -> bool {
    &&& reading <= low ==> position == 0
    &&& reading >= high ==> position == high - low
    &&& low < reading < high ==> position == reading - low
}

} // verus!
