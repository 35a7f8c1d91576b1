//! Serialization and deserialization of the events between the two halves.
use vstd::prelude::*;

use crate::crc::checksum;
use crate::rgb_anims::RgbAnimType;
use crate::sid::Sid;

verus! {

/// An event that one half of the keyboard tells the other.
#[derive(Debug, PartialEq, Eq, Clone, Copy, Structural)]
pub enum Event {
    /// Nothing to say
    Noop,
    /// Asks for an acknowledgment
    Ping,
    /// Asks for the messages to be sent again, starting at the given id
    Retransmit(Sid),
    /// The message of the given id has been received
    Ack(Sid),
    /// A key is pressed, at a row up to 3 and a column up to 9
    Press(u8, u8),
    /// A key is released, at a row up to 3 and a column up to 9
    Release(u8, u8),
    /// Play the given animation
    RgbAnim(RgbAnimType),
    /// The layer of the keymap has changed
    RgbAnimChangeLayer(u8),
    /// Seed the random number generator
    SeedRng(u8),
}

/// Why an event could not be written or read.
#[derive(Debug, PartialEq, Eq, Clone, Copy, Structural)]
pub enum Error {
    Serialization,
    Deserialization,
}

/// What goes over the wire: the payload in the low half, its checksum in the high half.
pub type Message = u32;

/// Whether a key at this row and column exists on the keyboard.
pub open spec fn key_in_range(r: u8, c: u8) -> bool {
    r <= 3 && c <= 9
}

/// The kind of an event (three bits) and its data (eight bits), if it can be sent.
pub open spec fn event_fields(event: Event) -> Option<(u16, u8)> {
    match event {
        Event::Noop => Some((0, 0x33)),
        Event::Ping => Some((0, 0xcc)),
        Event::Retransmit(sid) => Some((1, sid.v)),
        Event::Ack(sid) => Some((2, sid.v)),
        Event::Press(r, c) => if key_in_range(r, c) {
            Some((3, (r * 16 + c) as u8))
        } else {
            None
        },
        Event::Release(r, c) => if key_in_range(r, c) {
            Some((4, (r * 16 + c) as u8))
        } else {
            None
        },
        Event::RgbAnim(anim) => match crate::rgb_anims::anim_byte(anim) {
            Some(b) => Some((5, b)),
            None => None,
        },
        Event::RgbAnimChangeLayer(layer) => Some((6, layer)),
        Event::SeedRng(seed) => Some((7, seed)),
    }
}

/// Whether the event can be sent.
pub open spec fn serializable(event: Event) -> bool {
    event_fields(event) is Some
}

/// The sixteen bits of an event: five for the sequence id, three for the kind and
/// eight for the data.
pub open spec fn event_payload(event: Event, sid: Sid) -> u16 {
    let (tag, data) = event_fields(event)->0;
    ((sid.v % 32) * 2048 + tag * 256 + data) as u16
}

/// The event that a kind and its data stand for.
pub open spec fn fields_event(tag: u16, data: u8) -> Option<Event> {
    if tag == 0 && data == 0x33 {
        Some(Event::Noop)
    } else if tag == 0 && data == 0xcc {
        Some(Event::Ping)
    } else if tag == 1 {
        Some(Event::Retransmit(Sid { v: data }))
    } else if tag == 2 {
        Some(Event::Ack(Sid { v: data }))
    } else if tag == 3 {
        Some(Event::Press((data / 16) as u8, (data % 16) as u8))
    } else if tag == 4 {
        Some(Event::Release((data / 16) as u8, (data % 16) as u8))
    } else if tag == 5 {
        match crate::rgb_anims::byte_anim(data) {
            Some(anim) => Some(Event::RgbAnim(anim)),
            None => None,
        }
    } else if tag == 6 {
        Some(Event::RgbAnimChangeLayer(data))
    } else if tag == 7 {
        Some(Event::SeedRng(data))
    } else {
        None
    }
}

/// The payload of a message.
pub open spec fn message_payload(msg: Message) -> u16 {
    (msg % 0x10000) as u16
}

/// The checksum that a message carries.
pub open spec fn message_crc(msg: Message) -> u16 {
    (msg / 0x10000) as u16
}

/// Whether the checksum of a message is that of its payload.
pub open spec fn message_intact(msg: Message) -> bool {
    message_crc(msg) == crate::crc::payload_crc(message_payload(msg))
}

/// The message that carries an event.
pub open spec fn encode(event: Event, sid: Sid) -> Message {
    let payload = event_payload(event, sid);
    (payload + crate::crc::payload_crc(payload) * 0x10000) as u32
}

/// What a message says: an event and its sequence id, or nothing if the message is
/// corrupt or has no meaning.
pub open spec fn decode(msg: Message) -> Option<(Event, Sid)> {
    let payload = message_payload(msg);
    if !message_intact(msg) {
        None
    } else {
        match fields_event(((payload / 256) % 8) as u16, (payload % 256) as u8) {
            Some(event) => Some((event, Sid { v: (payload / 2048) as u8 })),
            None => None,
        }
    }
}

impl Event {
    /// whether the event is a retransmit
    pub fn is_retransmit(&self) -> (b: bool)
        ensures
            b == (*self is Retransmit),
    {
        matches!(self, Event::Retransmit(_))
    }

    /// whether the event is an ack
    pub fn is_ack(&self) -> (b: bool)
        ensures
            b == (*self is Ack),
    {
        matches!(self, Event::Ack(_))
    }

    /// whether the event is a ping
    pub fn is_ping(&self) -> (b: bool)
        ensures
            b == (*self is Ping),
    {
        matches!(self, Event::Ping)
    }

    /// whether the event is a noop
    pub fn is_noop(&self) -> (b: bool)
        ensures
            b == (*self is Noop),
    {
        matches!(self, Event::Noop)
    }

    /// whether the event needs an ack
    pub fn needs_ack(&self) -> (b: bool)
        ensures
            b == !(*self is Noop || *self is Ack || *self is Retransmit),
    {
        !matches!(self, Event::Noop | Event::Ack(_) | Event::Retransmit(_))
    }

    /// Convert the event to a u16
    /// The upper 5 bits are the sequence id
    /// Then are 3 bits for the event type
    /// The lower 8 bits are the event data
    pub fn to_u16(&self, sid: Sid) -> (r: Result<u16, Error>)
        ensures
            r == if serializable(*self) {
                Ok::<u16, Error>(event_payload(*self, sid))
            } else {
                Err::<u16, Error>(Error::Serialization)
            },
    {
        let (tag, data): (u16, u16) = match *self {
            Event::Noop => (0, 0x33),
            Event::Ping => (0, 0xcc),
            Event::Retransmit(err) => (1, err.as_u16()),
            Event::Ack(ack) => (2, ack.as_u16()),
            Event::Press(r, c) if r <= 3 && c <= 9 => (3, (r as u16) * 16 + (c as u16)),
            Event::Press(_, _) => return Err(Error::Serialization),
            Event::Release(r, c) if r <= 3 && c <= 9 => (4, (r as u16) * 16 + (c as u16)),
            Event::Release(_, _) => return Err(Error::Serialization),
            Event::RgbAnim(anim) => match anim.to_u8() {
                Ok(b) => (5, b as u16),
                Err(e) => return Err(e),
            },
            Event::RgbAnimChangeLayer(layer) => (6, layer as u16),
            Event::SeedRng(seed) => (7, seed as u16),
        };
        Ok((sid.as_u16() % 32) * 2048 + tag * 256 + data)
    }
}

/// Deserialize a key event from the serial line
pub fn deserialize(bytes: Message) -> (r: Result<(Event, Sid), Error>)
    ensures
        r == match decode(bytes) {
            Some(de) => Ok::<(Event, Sid), Error>(de),
            None => Err::<(Event, Sid), Error>(Error::Deserialization),
        },
{
    let payload: u16 = (bytes % 0x10000) as u16;
    let crc: u16 = (bytes / 0x10000) as u16;
    if crc != checksum(payload) {
        return Err(Error::Deserialization);
    }
    let sid = Sid::from_u32_lsb((payload / 2048) as u32);
    let tag: u16 = (payload / 256) % 8;
    let data: u8 = (payload % 256) as u8;
    match tag {
        0 if data == 0x33 => Ok((Event::Noop, sid)),
        0 if data == 0xcc => Ok((Event::Ping, sid)),
        1 => Ok((Event::Retransmit(Sid::from_u32_lsb(data as u32)), sid)),
        2 => Ok((Event::Ack(Sid::from_u32_lsb(data as u32)), sid)),
        3 => Ok((Event::Press(data / 16, data % 16), sid)),
        4 => Ok((Event::Release(data / 16, data % 16), sid)),
        5 => match RgbAnimType::from_u8(data) {
            Ok(anim) => Ok((Event::RgbAnim(anim), sid)),
            Err(e) => Err(e),
        },
        6 => Ok((Event::RgbAnimChangeLayer(data), sid)),
        7 => Ok((Event::SeedRng(data), sid)),
        _ => Err(Error::Deserialization),
    }
}

/// Serialize a key event
pub fn serialize(e: Event, sid: Sid) -> (r: Result<Message, Error>)
    ensures
        r == if serializable(e) {
            Ok::<Message, Error>(encode(e, sid))
        } else {
            Err::<Message, Error>(Error::Serialization)
        },
{
    match e.to_u16(sid) {
        Ok(payload) => {
            let crc: u16 = checksum(payload);
            Ok((payload as u32) + (crc as u32) * 0x10000)
        },
        Err(error) => Err(error),
    }
}

/// Reading a message back gives the event and the sequence id that were written.
pub proof fn law_decode_encode(event: Event, sid: Sid)
    requires
        serializable(event),
        sid.valid(),
    ensures
        decode(encode(event, sid)) == Some((event, sid)),
        message_intact(encode(event, sid)),
{
    let payload = event_payload(event, sid);
    let (tag, data) = event_fields(event)->0;
    lemma_fields_roundtrip(event);
    lemma_pack(tag, data, sid, crate::crc::payload_crc(payload));
}

proof fn lemma_fields_roundtrip(event: Event)
    requires
        serializable(event),
    ensures
        event_fields(event) matches Some((tag, data)) && tag < 8 && fields_event(tag, data) == Some(
            event,
        ),
{
    if let Event::RgbAnim(anim) = event {
        crate::rgb_anims::law_anim_byte_roundtrip(anim);
    }
}

proof fn lemma_pack(tag: u16, data: u8, sid: Sid, crc: u16)
    requires
        tag < 8,
        sid.valid(),
    ensures
        ({
            let payload = ((sid.v % 32) * 2048 + tag * 256 + data) as u16;
            let msg = (payload + crc * 0x10000) as u32;
            &&& message_payload(msg) == payload
            &&& message_crc(msg) == crc
            &&& (payload / 256) % 8 == tag
            &&& payload % 256 == data
            &&& payload / 2048 == sid.v
        }),
{
}

/// A message whose payload was changed on the way, or whose checksum was, is refused.
pub proof fn law_corruption_is_refused(msg: Message, received: Message)
    requires
        message_intact(msg),
        received != msg,
        message_payload(received) == message_payload(msg) || message_crc(received) == message_crc(
            msg,
        ),
    ensures
        decode(received) is None,
{
    crate::crc::law_payload_crc_injective(message_payload(msg), message_payload(received));
}

/// The ids of a decoded message fit in five bits, whatever was received.
pub proof fn law_decoded_sid_valid(msg: Message)
    ensures
        decode(msg) matches Some((event, sid)) ==> sid.valid(),
{
}

/// The keepalive word, all zeros, is no message: it does not decode, and no event is
/// written as it.
pub proof fn law_keepalive_is_no_message(event: Event, sid: Sid)
    requires
        serializable(event),
        sid.valid(),
    ensures
        decode(0) is None,
        encode(event, sid) != 0,
{
    law_decode_encode(event, sid);
}

/// The sixteen bits of an event: the upper five are the id, the next three the kind of the
/// event and the lower eight its data. Only a key that there is not and an animation whose
/// color does not fit cannot be written.
#[verifier::rlimit(50)]
#[verifier::spinoff_prover]
pub proof fn law_payload_fields(event: Event, sid: Sid, r: Result<u16, Error>)
    requires
        call_ensures(Event::to_u16, (&event, sid), r),
    ensures
        r is Err <==> match event {
            Event::Press(row, col) | Event::Release(row, col) => row > 3 || col > 9,
            Event::RgbAnim(RgbAnimType::SolidColor(c)) => c >= 32,
            Event::RgbAnim(RgbAnimType::PulseSolid(c)) => c >= 32,
            Event::RgbAnim(RgbAnimType::InputSolid(c)) => c >= 32,
            _ => false,
        },
        r matches Err(e) ==> e == Error::Serialization,
        r matches Ok(bits) ==> {
            &&& bits as int / 2048 == sid.v as int % 32
            &&& bits as int / 256 % 8 == match event {
                Event::Noop => 0int,
                Event::Ping => 0int,
                Event::Retransmit(_) => 1int,
                Event::Ack(_) => 2int,
                Event::Press(_, _) => 3int,
                Event::Release(_, _) => 4int,
                Event::RgbAnim(_) => 5int,
                Event::RgbAnimChangeLayer(_) => 6int,
                Event::SeedRng(_) => 7int,
            }
            &&& bits as int % 256 == match event {
                Event::Noop => 0x33int,
                Event::Ping => 0xccint,
                Event::Retransmit(id) => id.v as int,
                Event::Ack(id) => id.v as int,
                Event::Press(row, col) => row * 16 + col,
                Event::Release(row, col) => row * 16 + col,
                Event::RgbAnim(RgbAnimType::Off) => 0int,
                Event::RgbAnim(RgbAnimType::SolidColor(c)) => 32 + c,
                Event::RgbAnim(RgbAnimType::Wheel) => 64int,
                Event::RgbAnim(RgbAnimType::Pulse) => 96int,
                Event::RgbAnim(RgbAnimType::PulseSolid(c)) => 128 + c,
                Event::RgbAnim(RgbAnimType::Input) => 160int,
                Event::RgbAnim(RgbAnimType::InputSolid(c)) => 192 + c,
                Event::RgbAnimChangeLayer(layer) => layer as int,
                Event::SeedRng(seed) => seed as int,
            }
        },
{
}

/// A message has the sixteen bits of its event in its low half and their checksum in its
/// high half. What cannot be written as sixteen bits cannot be written as a message.
pub proof fn law_message_halves(
    event: Event,
    sid: Sid,
    r: Result<Message, Error>,
    payload: Result<u16, Error>,
    crc: u16,
)
    requires
        call_ensures(serialize, (event, sid), r),
        call_ensures(Event::to_u16, (&event, sid), payload),
        payload matches Ok(bits) ==> call_ensures(checksum, (bits,), crc),
    ensures
        r is Ok <==> payload is Ok,
        r matches Err(e) ==> payload == Err::<u16, Error>(e),
        r matches Ok(msg) ==> payload == Ok::<u16, Error>((msg % 0x10000) as u16) && msg / 0x10000
            == crc,
{
}

/// What is written is read back: the same event under the same id.
pub proof fn law_read_gives_back_what_was_written(
    event: Event,
    sid: Sid,
    written: Result<Message, Error>,
    read: Result<(Event, Sid), Error>,
)
    requires
        sid.v < 32,
        call_ensures(serialize, (event, sid), written),
        written matches Ok(msg) && call_ensures(deserialize, (msg,), read),
    ensures
        read == Ok::<(Event, Sid), Error>((event, sid)),
{
    law_decode_encode(event, sid);
}

/// A word is read exactly if its checksum is right and its kind and data mean something: the
/// first kind has two meanings only, and an animation has seven kinds of its own.
#[verifier::rlimit(50)]
#[verifier::spinoff_prover]
pub proof fn law_what_is_read(
    msg: Message,
    crc: u16,
    read: Result<(Event, Sid), Error>,
)
    requires
        call_ensures(checksum, ((msg % 0x10000) as u16,), crc),
        call_ensures(deserialize, (msg,), read),
    ensures
        read is Ok <==> {
            let kind = msg as int / 256 % 8;
            let data = msg as int % 256;
            &&& msg / 0x10000 == crc
            &&& kind == 0 ==> data == 0x33 || data == 0xcc
            &&& kind == 5 ==> data < 224
        },
        read matches Err(e) ==> e == Error::Deserialization,
{
    let payload = message_payload(msg);
    assert(payload as int / 256 % 8 == msg as int / 256 % 8);
    assert(payload as int % 256 == msg as int % 256);
}

/// Writing what was read gives the word back. This leaves out keys that there are not, which
/// cannot be written, and animations, where the bits of a color that is not used are ignored.
#[verifier::rlimit(50)]
#[verifier::spinoff_prover]
pub proof fn law_write_gives_back_what_was_read(
    msg: Message,
    event: Event,
    sid: Sid,
    written: Result<Message, Error>,
)
    requires
        call_ensures(deserialize, (msg,), Ok::<(Event, Sid), Error>((event, sid))),
        call_ensures(serialize, (event, sid), written),
        !(event is RgbAnim),
        match event {
            Event::Press(row, col) | Event::Release(row, col) => row <= 3 && col <= 9,
            _ => true,
        },
    ensures
        written == Ok::<Message, Error>(msg),
{
    let payload = message_payload(msg);
    assert(payload as int / 2048 * 2048 + (payload as int / 256 % 8) * 256 + payload as int % 256
        == payload);
    assert(message_payload(msg) + message_crc(msg) * 0x10000 == msg);
}

/// An event is exactly one of a retransmit, an acknowledgment, a ping, a noop or something
/// else; the first two and a noop are not acknowledged.
pub proof fn law_kinds_of_events(
    event: Event,
    retransmit: bool,
    ack: bool,
    ping: bool,
    noop: bool,
    needs: bool,
)
    requires
        call_ensures(Event::is_retransmit, (&event,), retransmit),
        call_ensures(Event::is_ack, (&event,), ack),
        call_ensures(Event::is_ping, (&event,), ping),
        call_ensures(Event::is_noop, (&event,), noop),
        call_ensures(Event::needs_ack, (&event,), needs),
    ensures
        retransmit <==> (event matches Event::Retransmit(_)),
        ack <==> (event matches Event::Ack(_)),
        ping <==> event == Event::Ping,
        noop <==> event == Event::Noop,
        needs <==> !retransmit && !ack && !noop,
{
}

/// What a word that can be read says: the id is in the five bits above the kind, and the kind
/// and the data make the event, the data of a key being its row and its column in four bits
/// each.
#[verifier::rlimit(50)]
#[verifier::spinoff_prover]
pub proof fn law_meaning_of_a_word(
    msg: Message,
    event: Event,
    sid: Sid,
    anim: Result<RgbAnimType, Error>,
)
    requires
        call_ensures(deserialize, (msg,), Ok::<(Event, Sid), Error>((event, sid))),
        call_ensures(RgbAnimType::from_u8, ((msg % 256) as u8,), anim),
    ensures
        sid.v as int == msg as int / 2048 % 32,
        ({
            let kind = msg as int / 256 % 8;
            let data = msg as int % 256;
            match event {
                Event::Noop => kind == 0 && data == 0x33,
                Event::Ping => kind == 0 && data == 0xcc,
                Event::Retransmit(id) => kind == 1 && data == id.v,
                Event::Ack(id) => kind == 2 && data == id.v,
                Event::Press(row, col) => kind == 3 && data == row * 16 + col && col < 16,
                Event::Release(row, col) => kind == 4 && data == row * 16 + col && col < 16,
                Event::RgbAnim(a) => kind == 5 && anim == Ok::<RgbAnimType, Error>(a),
                Event::RgbAnimChangeLayer(layer) => kind == 6 && data == layer,
                Event::SeedRng(seed) => kind == 7 && data == seed,
            }
        }),
{
    let payload = message_payload(msg);
    assert(payload as int / 256 % 8 == msg as int / 256 % 8);
    assert(payload as int % 256 == msg as int % 256);
    assert(payload as int / 2048 == msg as int / 2048 % 32);
}

} // verus!
