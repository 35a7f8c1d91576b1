//! Moves of the pointing device, as they go over the wire.
use vstd::prelude::*;

verus! {

/// Mouse move event
#[derive(Debug, PartialEq, Eq, Structural)]
pub struct MouseMove {
    /// Delta X
    pub dx: i16,
    /// Delta Y
    pub dy: i16,
}

/// The sixteen bits of a signed number, as an unsigned one.
pub open spec fn unsigned16(x: i16) -> int {
    if x < 0 {
        x + 0x10000
    } else {
        x as int
    }
}

/// The signed number of sixteen bits.
pub open spec fn signed16(x: int) -> int {
    if x >= 0x8000 {
        x - 0x10000
    } else {
        x
    }
}

/// The sixteen bits of a signed number
pub(crate) fn to_unsigned16(x: i16) -> (w: u16)
    ensures
        w == unsigned16(x),
{
    assert(x as u16 == if x < 0 {
        x + 0x10000
    } else {
        x as int
    }) by (bit_vector);
    x as u16
}

/// The signed number of sixteen bits
pub(crate) fn to_signed16(w: u16) -> (x: i16)
    ensures
        x == signed16(w as int),
{
    assert(w as i16 == if w >= 0x8000 {
        w - 0x10000
    } else {
        w as int
    }) by (bit_vector);
    w as i16
}

impl MouseMove {
    /// The word of a move: the horizontal part in the high half, the vertical one in
    /// the low half.
    pub open spec fn word(self) -> u32 {
        (unsigned16(self.dx) * 0x10000 + unsigned16(self.dy)) as u32
    }

    /// The move that a word stands for.
    pub open spec fn of_word(v: u32) -> MouseMove {
        MouseMove {
            dx: signed16(v as int / 0x10000) as i16,
            dy: signed16(v as int % 0x10000) as i16,
        }
    }

    /// Create a new mouse move event
    pub fn new(dx: i16, dy: i16) -> (m: Self)
        ensures
            m.dx == dx,
            m.dy == dy,
    {
        MouseMove { dx, dy }
    }

    /// To u32
    pub fn to_u32(&self) -> (v: u32)
        ensures
            v == self.word(),
    {
        (to_unsigned16(self.dx) as u32) * 0x10000 + (to_unsigned16(self.dy) as u32)
    }

    /// From u32
    pub fn from_u32(v: u32) -> (m: Self)
        ensures
            m == MouseMove::of_word(v),
    {
        MouseMove {
            dx: to_signed16((v / 0x10000) as u16),
            dy: to_signed16((v % 0x10000) as u16),
        }
    }
}

/// Reading back the word of a move gives that move, and every word is the word of the
/// move that it stands for.
pub proof fn law_mouse_move_roundtrip(m: MouseMove, v: u32)
    ensures
        MouseMove::of_word(m.word()) == m,
        MouseMove::of_word(v).word() == v,
{
}

/// The word of a move has the sixteen bits of its horizontal part in the high half and those
/// of its vertical part in the low half, as two's complements. A word is read back the same
/// way.
pub proof fn law_word_of_a_move(m: MouseMove, v: u32, read: MouseMove)
    requires
        call_ensures(MouseMove::to_u32, (&m,), v),
        call_ensures(MouseMove::from_u32, (v,), read),
    ensures
        (v as int / 0x10000 - m.dx) % 0x10000 == 0,
        (v as int % 0x10000 - m.dy) % 0x10000 == 0,
        read == m,
{
}

/// A move is made of its two parts.
pub proof fn law_move_is_its_parts(dx: i16, dy: i16, m: MouseMove, v: u32, read: MouseMove)
    requires
        call_ensures(MouseMove::new, (dx, dy), m),
        call_ensures(MouseMove::from_u32, (v,), read),
    ensures
        m.dx == dx,
        m.dy == dy,
        (v as int / 0x10000 - read.dx) % 0x10000 == 0,
        (v as int % 0x10000 - read.dy) % 0x10000 == 0,
{
}

} // verus!
