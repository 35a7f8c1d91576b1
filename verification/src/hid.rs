//! HID reports and the state of the lock keys.
use vstd::prelude::*;

use crate::keys::KeyEvent;
use crate::mouse_move::to_unsigned16;

verus! {

/// Keyboard HID report descriptor
pub const KB_REPORT_DESCRIPTOR: [u8; 69] = [
    0x05, 0x01,  // Usage Page (Generic Desktop Ctrls)
    0x09, 0x06,  // Usage (Keyboard)
    0xA1, 0x01,  // Collection (Application)
    0x05, 0x07,  //   Usage Page (Kbrd/Keypad)
    0x19, 0xE0,  //   Usage Minimum (0xE0)
    0x29, 0xE7,  //   Usage Maximum (0xE7)
    0x15, 0x00,  //   Logical Minimum (0)
    0x25, 0x01,  //   Logical Maximum (1)
    0x75, 0x01,  //   Report Size (1)
    0x95, 0x08,  //   Report Count (8)
    0x81, 0x02,  //   Input (Data,Var,Abs,No Wrap,Linear,Preferred State,No Null Position)
    0x19, 0x00,  //   Usage Minimum (0x00)
    0x29, 0xFF,  //   Usage Maximum (0xFF)
    0x26, 0xFF, 0x00,  //   Logical Maximum (255)
    0x75, 0x08,  //   Report Size (8)
    0x95, 0x01,  //   Report Count (1)
    0x81, 0x03,  //   Input (Const,Var,Abs,No Wrap,Linear,Preferred State,No Null Position)
    0x05, 0x08,  //   Usage Page (LEDs)
    0x19, 0x01,  //   Usage Minimum (Num Lock)
    0x29, 0x05,  //   Usage Maximum (Kana)
    0x25, 0x01,  //   Logical Maximum (1)
    0x75, 0x01,  //   Report Size (1)
    0x95, 0x05,  //   Report Count (5)
    0x91, 0x02,  //   Output (Data,Var,Abs,No Wrap,Linear,Preferred State,No Null Position)
    0x95, 0x03,  //   Report Count (3)
    0x91, 0x03,  //   Output (Const,Var,Abs,No Wrap,Linear,Preferred State,No Null Position)
    0x05, 0x07,  //   Usage Page (Kbrd/Keypad)
    0x19, 0x00,  //   Usage Minimum (0x00)
    0x29, 0xDD,  //   Usage Maximum (0xDD)
    0x26, 0xFF, 0x00,  //   Logical Maximum (255)
    0x75, 0x08,  //   Report Size (8)
    0x95, 0x06,  //   Report Count (6)
    0x81, 0x00,  //   Input (Data,Array,Abs,No Wrap,Linear,Preferred State,No Null Position)
    0xC0,  // End Collection
];

/// Mouse HID report descriptor
pub const MOUSE_REPORT_DESCRIPTOR: [u8; 87] = [
    0x05, 0x01,  // Usage Page (Generic Desktop Ctrls)
    0x09, 0x02,  // Usage (Mouse)
    0xA1, 0x01,  // Collection (Application)
    0x09, 0x01,  //   Usage (Pointer)
    0xA1, 0x00,  //   Collection (Physical)
    0x05, 0x09,  //     Usage Page (Button)
    0x19, 0x01,  //     Usage Minimum (0x01)
    0x29, 0x05,  //     Usage Maximum (0x05)
    0x15, 0x00,  //     Logical Minimum (0)
    0x25, 0x01,  //     Logical Maximum (1)
    0x95, 0x05,  //     Report Count (5)
    0x75, 0x01,  //     Report Size (1)
    0x81, 0x02,  //     Input (Data,Var,Abs,No Wrap,Linear,Preferred State,No Null Position)
    0x95, 0x01,  //     Report Count (1)
    0x75, 0x03,  //     Report Size (3)
    0x81, 0x01,  //     Input (Const,Array,Abs,No Wrap,Linear,Preferred State,No Null Position)
    0x05, 0x01,  //     Usage Page (Generic Desktop Ctrls)
    0x09, 0x30,  //     Usage (X)
    0x09, 0x31,  //     Usage (Y)
    0x16, 0x00, 0x80,  //     Logical Minimum (-32768)
    0x26, 0xFF, 0x7F,  //     Logical Maximum (32767)
    0x75, 0x10,  //     Report Size (16)
    0x95, 0x02,  //     Report Count (2)
    0x81, 0x06,  //     Input (Data,Var,Rel,No Wrap,Linear,Preferred State,No Null Position)
    0xC0,  //   End Collection
    0xA1, 0x00,  //   Collection (Physical)
    0x05, 0x01,  //     Usage Page (Generic Desktop Ctrls)
    0x09, 0x38,  //     Usage (Wheel)
    0x15, 0x81,  //     Logical Minimum (-127)
    0x25, 0x7F,  //     Logical Maximum (127)
    0x75, 0x08,  //     Report Size (8)
    0x95, 0x01,  //     Report Count (1)
    0x81, 0x06,  //     Input (Data,Var,Rel,No Wrap,Linear,Preferred State,No Null Position)
    0xC0,  //   End Collection
    0xA1, 0x00,  //   Collection (Physical)
    0x05, 0x0C,  //     Usage Page (Consumer)
    0x0A, 0x38, 0x02,  //     Usage (AC Pan)
    0x95, 0x01,  //     Report Count (1)
    0x75, 0x08,  //     Report Size (8)
    0x15, 0x81,  //     Logical Minimum (-127)
    0x25, 0x7F,  //     Logical Maximum (127)
    0x81, 0x06,  //     Input (Data,Var,Rel,No Wrap,Linear,Preferred State,No Null Position)
    0xC0,  //   End Collection
    0xC0,  // End Collection
];

/// Keyboard HID report
#[derive(Debug, Clone, Copy, PartialEq, Eq)]
pub struct KeyboardReport {
    /// Modifier keys, in the following order (from least significant bit):
    /// - Left Control
    /// - Left Shift
    /// - Left Alt
    /// - Left GUI
    /// - Right Control
    /// - Right Shift
    /// - Right Alt
    /// - Right GUI
    pub modifier: u8,
    /// Keycodes for up to 6 simultaneously pressed keys
    pub keycodes: [u8; 6],
}

impl Default for KeyboardReport {
    fn default() -> (report: Self)
        ensures
            report.modifier == 0,
            report.keycodes@ == seq![0u8, 0, 0, 0, 0, 0],
    {
        let report = KeyboardReport { modifier: 0, keycodes: [0; 6] };
        assert(report.keycodes@ =~= seq![0u8, 0, 0, 0, 0, 0]);
        report
    }
}

impl KeyboardReport {
    /// Both reports say the same.
    pub open spec fn same(self, other: KeyboardReport) -> bool {
        self.modifier == other.modifier && self.keycodes@ == other.keycodes@
    }

    /// Whether both reports say the same
    pub fn is_same(&self, other: &KeyboardReport) -> (b: bool)
        ensures
            b == self.same(*other),
    {
        let mut k: usize = 0;
        while k < 6
            invariant
                k <= 6,
                forall|n: int| 0 <= n < k ==> self.keycodes@[n] == other.keycodes@[n],
            decreases 6 - k,
        {
            if self.keycodes[k] != other.keycodes[k] {
                return false;
            }
            k = k + 1;
        }
        assert(self.keycodes@ =~= other.keycodes@);
        self.modifier == other.modifier
    }

    /// Serialize the report
    pub fn serialize(&self) -> (raw: [u8; 8])
        ensures
            raw@ == seq![self.modifier, 0u8] + self.keycodes@,
    {
        let raw: [u8; 8] = [
            self.modifier,
            0u8,
            self.keycodes[0],
            self.keycodes[1],
            self.keycodes[2],
            self.keycodes[3],
            self.keycodes[4],
            self.keycodes[5],
        ];
        assert(raw@ =~= seq![self.modifier, 0u8] + self.keycodes@);
        raw
    }
}

/// Consumer control HID report
#[derive(Debug, Clone, Copy, PartialEq, Eq, Structural)]
pub struct ConsumerReport {
    /// Usage code; 0 if no key is pressed
    pub usage: u16,
}

impl Default for ConsumerReport {
    fn default() -> (report: Self)
        ensures
            report.usage == 0,
    {
        ConsumerReport { usage: 0 }
    }
}

/// Mouse HID report
#[derive(Debug, Clone, Copy, PartialEq, Eq, Structural)]
pub struct MouseReport {
    /// Buttons state
    /// Button 1 to 8 where Button1 is the LSB
    pub buttons: u8,
    /// x movement
    pub x: i16,
    /// y movement
    pub y: i16,
    /// Scroll down (negative) or up (positive) this many units
    pub wheel: i8,
    /// Scroll left (negative) or right (positive) this many units
    pub pan: i8,
}

impl Default for MouseReport {
    fn default() -> (report: Self)
        ensures
            report == (MouseReport { buttons: 0, x: 0, y: 0, wheel: 0, pan: 0 }),
    {
        MouseReport { buttons: 0, x: 0, y: 0, wheel: 0, pan: 0 }
    }
}

/// The eight bits of a signed number, as an unsigned one.
pub open spec fn unsigned8(x: i8) -> u8 {
    if x < 0 {
        (x + 0x100) as u8
    } else {
        x as u8
    }
}

/// The sixteen bits of a signed number, low byte first.
pub open spec fn le_bytes(x: i16) -> Seq<u8> {
    seq![
        (crate::mouse_move::unsigned16(x) % 256) as u8,
        (crate::mouse_move::unsigned16(x) / 256) as u8,
    ]
}

fn byte_of(x: i8) -> (b: u8)
    ensures
        b == unsigned8(x),
{
    assert(x as u8 == if x < 0 {
        x + 0x100
    } else {
        x as int
    }) by (bit_vector);
    x as u8
}

impl MouseReport {
    /// The bytes of the report.
    pub open spec fn bytes(self) -> Seq<u8> {
        seq![self.buttons] + le_bytes(self.x) + le_bytes(self.y) + seq![
            unsigned8(self.wheel),
            unsigned8(self.pan),
        ]
    }

    /// Serialize the report
    pub fn serialize(&self) -> (raw: [u8; 7])
        ensures
            raw@ == self.bytes(),
    {
        let x: u16 = to_unsigned16(self.x);
        let y: u16 = to_unsigned16(self.y);
        let raw: [u8; 7] = [
            self.buttons,
            (x % 256) as u8,
            (x / 256) as u8,
            (y % 256) as u8,
            (y / 256) as u8,
            byte_of(self.wheel),
            byte_of(self.pan),
        ];
        assert(raw@ =~= self.bytes());
        raw
    }
}

/// The bytes of a mouse report tell it from every other report.
pub proof fn law_mouse_report_bytes_injective(a: MouseReport, b: MouseReport)
    requires
        a.bytes() == b.bytes(),
    ensures
        a == b,
{
    lemma_bytes_by_index(a);
    lemma_bytes_by_index(b);
    let (ax, ay) = (crate::mouse_move::unsigned16(a.x), crate::mouse_move::unsigned16(a.y));
    let (bx, by) = (crate::mouse_move::unsigned16(b.x), crate::mouse_move::unsigned16(b.y));
    assert(ax == (ax / 256) * 256 + ax % 256 && bx == (bx / 256) * 256 + bx % 256);
    assert(ay == (ay / 256) * 256 + ay % 256 && by == (by / 256) * 256 + by % 256);
}

proof fn lemma_bytes_by_index(m: MouseReport)
    ensures
        m.bytes()[0] == m.buttons,
        m.bytes()[1] == crate::mouse_move::unsigned16(m.x) % 256,
        m.bytes()[2] == crate::mouse_move::unsigned16(m.x) / 256,
        m.bytes()[3] == crate::mouse_move::unsigned16(m.y) % 256,
        m.bytes()[4] == crate::mouse_move::unsigned16(m.y) / 256,
        m.bytes()[5] == unsigned8(m.wheel),
        m.bytes()[6] == unsigned8(m.pan),
{
}

/// What a HID request is about
#[derive(Debug, Clone, Copy, PartialEq, Eq, Structural)]
pub enum ReportId {
    /// IN report
    In(u8),
    /// OUT report
    Out(u8),
    /// Feature report
    Feature(u8),
}

/// Row of the keys that stand for the lock leds
pub const LOCK_ROW: u8 = 3;

/// Column of the key that stands for the CapsLock led
pub const CAPS_LOCK_COL: u8 = 0;

/// Column of the key that stands for the NumLock led
pub const NUM_LOCK_COL: u8 = 1;

/// A press and a release of a key.
pub open spec fn tap(r: u8, c: u8) -> Seq<KeyEvent> {
    seq![KeyEvent::Press(r, c), KeyEvent::Release(r, c)]
}

/// The taps that tell the keymap of a change of the lock leds.
pub open spec fn lock_taps(num_changed: bool, caps_changed: bool) -> Seq<KeyEvent> {
    (if num_changed {
        tap(LOCK_ROW, NUM_LOCK_COL)
    } else {
        Seq::empty()
    }) + (if caps_changed {
        tap(LOCK_ROW, CAPS_LOCK_COL)
    } else {
        Seq::empty()
    })
}

/// HID handler
pub struct HidRequestHandler {
    /// Num lock state
    pub num_lock: bool,
    /// Caps lock state
    pub caps_lock: bool,
}

impl HidRequestHandler {
    /// Create a new HID request handler
    pub fn new() -> (handler: Self)
        ensures
            !handler.num_lock,
            !handler.caps_lock,
    {
        HidRequestHandler { num_lock: false, caps_lock: false }
    }

    /// The host sets a report. The state of the lock leds is in the two lowest bits of
    /// the keyboard's report.
    /// Returns the key events that the keymap is to be told
    pub fn set_report(&mut self, id: ReportId, data: &[u8]) -> (events: Vec<KeyEvent>)
        requires
            id == ReportId::Out(0) ==> data@.len() > 0,
        ensures
            id == ReportId::Out(0) ==> {
                let num_lock = data@[0] % 2 == 1;
                let caps_lock = (data@[0] / 2) % 2 == 1;
                &&& *final(self) == (HidRequestHandler { num_lock, caps_lock })
                &&& events@ == lock_taps(
                    num_lock != old(self).num_lock,
                    caps_lock != old(self).caps_lock,
                )
            },
            id != ReportId::Out(0) ==> *final(self) == *old(self) && events@.len() == 0,
    {
        let mut events: Vec<KeyEvent> = Vec::new();
        if let ReportId::Out(0) = id {
            self.num_lock(data[0] % 2 == 1, &mut events);
            self.caps_lock((data[0] / 2) % 2 == 1, &mut events);
            assert(events@ =~= lock_taps(
                self.num_lock != old(self).num_lock,
                self.caps_lock != old(self).caps_lock,
            ));
        }
        events
    }

    /// Set the caps lock state. May not have changed.
    fn caps_lock(&mut self, caps_lock: bool, events: &mut Vec<KeyEvent>)
        ensures
            *final(self) == (HidRequestHandler { caps_lock, ..*old(self) }),
            final(events)@ == old(events)@ + lock_taps(false, caps_lock != old(self).caps_lock),
    {
        if self.caps_lock != caps_lock {
            self.caps_lock = caps_lock;
            // send a key press and release event for the CapsLock key so that
            // the keymap can do something with it, like changing the default layer
            events.push(KeyEvent::Press(LOCK_ROW, CAPS_LOCK_COL));
            events.push(KeyEvent::Release(LOCK_ROW, CAPS_LOCK_COL));
        }
        assert(events@ =~= old(events)@ + lock_taps(false, caps_lock != old(self).caps_lock));
    }

    /// Set the num lock state. May not have changed.
    fn num_lock(&mut self, num_lock: bool, events: &mut Vec<KeyEvent>)
        ensures
            *final(self) == (HidRequestHandler { num_lock, ..*old(self) }),
            final(events)@ == old(events)@ + lock_taps(num_lock != old(self).num_lock, false),
    {
        if self.num_lock != num_lock {
            self.num_lock = num_lock;
            // send a key press and release event for the NumLock key so that
            // the keymap can do something with it, like changing the default layer
            events.push(KeyEvent::Press(LOCK_ROW, NUM_LOCK_COL));
            events.push(KeyEvent::Release(LOCK_ROW, NUM_LOCK_COL));
        }
        assert(events@ =~= old(events)@ + lock_taps(num_lock != old(self).num_lock, false));
    }
}

/// The bytes of a keyboard report that go to the host: none if this half is not the one
/// that is connected to it
pub fn outgoing_kb_report(report: &KeyboardReport, is_host: bool) -> (raw: Option<[u8; 8]>)
    ensures
        raw is Some <==> is_host,
        raw matches Some(raw) ==> raw@ == seq![report.modifier, 0u8] + report.keycodes@,
{
    if is_host {
        Some(report.serialize())
    } else {
        None
    }
}

/// The bytes of a keyboard report: the modifiers, a byte that is not used, and the six keys in
/// their order. They go out exactly from the half that is connected to the host.
pub proof fn law_keyboard_report_bytes(
    report: KeyboardReport,
    is_host: bool,
    raw: [u8; 8],
    out: Option<[u8; 8]>,
    k: int,
)
    requires
        call_ensures(KeyboardReport::serialize, (&report,), raw),
        call_ensures(outgoing_kb_report, (&report, is_host), out),
        0 <= k < 6,
    ensures
        raw@[0] == report.modifier,
        raw@[1] == 0,
        raw@[k + 2] == report.keycodes@[k],
        out is Some <==> is_host,
        out matches Some(bytes) ==> bytes@ == raw@,
{
}

/// Two reports say the same exactly if their bytes are the same.
pub proof fn law_same_reports_have_the_same_bytes(
    a: KeyboardReport,
    b: KeyboardReport,
    same: bool,
    raw_a: [u8; 8],
    raw_b: [u8; 8],
)
    requires
        call_ensures(KeyboardReport::is_same, (&a, &b), same),
        call_ensures(KeyboardReport::serialize, (&a,), raw_a),
        call_ensures(KeyboardReport::serialize, (&b,), raw_b),
    ensures
        same <==> raw_a@ == raw_b@,
{
    if raw_a@ == raw_b@ {
        assert forall|k: int| 0 <= k < 6 implies a.keycodes@[k] == b.keycodes@[k] by {
            assert(raw_a@[k + 2] == a.keycodes@[k]);
            assert(raw_b@[k + 2] == b.keycodes@[k]);
        }
        assert(a.keycodes@ =~= b.keycodes@);
        assert(raw_a@[0] == a.modifier && raw_b@[0] == b.modifier);
    }
}

/// The bytes of a mouse report: the buttons, the move in each direction in sixteen bits, low
/// byte first, the wheel and the pan. Negative numbers are two's complements.
pub proof fn law_mouse_report_bytes(report: MouseReport, raw: [u8; 7])
    requires
        call_ensures(MouseReport::serialize, (&report,), raw),
    ensures
        raw@[0] == report.buttons,
        (raw@[1] + 256 * raw@[2] - report.x) % 0x10000 == 0,
        (raw@[3] + 256 * raw@[4] - report.y) % 0x10000 == 0,
        (raw@[5] - report.wheel) % 0x100 == 0,
        (raw@[6] - report.pan) % 0x100 == 0,
{
    lemma_bytes_by_index(report);
    lemma_two_bytes(crate::mouse_move::unsigned16(report.x));
    lemma_two_bytes(crate::mouse_move::unsigned16(report.y));
}

proof fn lemma_two_bytes(w: int)
    ensures
        w % 256 + 256 * (w / 256) == w,
{
}

/// The host tells the state of the lock leds in the two lowest bits: the lowest for NumLock,
/// the next one for CapsLock. The keymap is told of each led that changed, and of no other,
/// by a tap of its key: row 3, column 1 for NumLock and column 0 for CapsLock.
pub proof fn law_lock_leds_are_tapped(
    handler: &mut HidRequestHandler,
    data: &[u8],
    events: Vec<KeyEvent>,
)
    requires
        data@.len() > 0,
        call_ensures(HidRequestHandler::set_report, (handler, ReportId::Out(0), data), events),
    ensures
        final(handler).num_lock <==> data@[0] as int % 2 == 1,
        final(handler).caps_lock <==> data@[0] as int / 2 % 2 == 1,
        events@ == (if final(handler).num_lock != old(handler).num_lock {
            seq![KeyEvent::Press(3, 1), KeyEvent::Release(3, 1)]
        } else {
            Seq::empty()
        }) + (if final(handler).caps_lock != old(handler).caps_lock {
            seq![KeyEvent::Press(3, 0), KeyEvent::Release(3, 0)]
        } else {
            Seq::empty()
        }),
{
}

/// The reports of the host that are not about the lock leds change nothing.
pub proof fn law_other_reports_are_ignored(
    handler: &mut HidRequestHandler,
    id: ReportId,
    data: &[u8],
    events: Vec<KeyEvent>,
)
    requires
        id != ReportId::Out(0),
        call_ensures(HidRequestHandler::set_report, (handler, id, data), events),
    ensures
        events@.len() == 0,
        final(handler).num_lock == old(handler).num_lock,
        final(handler).caps_lock == old(handler).caps_lock,
{
}

/// The lock leds are off at the start.
pub proof fn law_lock_leds_are_off_at_the_start(handler: HidRequestHandler)
    requires
        call_ensures(HidRequestHandler::new, (), handler),
    ensures
        !handler.num_lock,
        !handler.caps_lock,
{
}

} // verus!
