use cnano_rs::crc::checksum;
use cnano_rs::rgb_anims::{RgbAnimType, ERROR_COLOR_INDEX};
use cnano_rs::serde::{deserialize, serialize, Error, Event};
use cnano_rs::sid::Sid;

fn valid_events() -> [(Event, Sid); 38] {
    [
        (Event::Noop, Sid::new(0x0)),
        (Event::Noop, Sid::new(0xa)),
        (Event::Noop, Sid::new(31)),
        (Event::Ping, Sid::new(0x0)),
        (Event::Ping, Sid::new(0xa)),
        (Event::Ping, Sid::new(31)),
        (Event::Retransmit(Sid::new(0)), Sid::new(0)),
        (Event::Retransmit(Sid::new(24)), Sid::new(25)),
        (Event::Retransmit(Sid::new(15)), Sid::new(12)),
        (Event::Ack(Sid::new(0)), Sid::new(0)),
        (Event::Ack(Sid::new(13)), Sid::new(26)),
        (Event::Ack(Sid::new(17)), Sid::new(31)),
        (Event::Press(0, 1), Sid::new(1)),
        (Event::Press(1, 0), Sid::new(2)),
        (Event::Press(1, 9), Sid::new(24)),
        (Event::Release(1, 2), Sid::new(17)),
        (Event::Press(0, 4), Sid::new(12)),
        (Event::Release(3, 9), Sid::new(03)),
        (Event::RgbAnim(RgbAnimType::Off), Sid::new(25)),
        (Event::RgbAnim(RgbAnimType::SolidColor(0)), Sid::new(08)),
        (Event::RgbAnim(RgbAnimType::SolidColor(1)), Sid::new(09)),
        (
            Event::RgbAnim(RgbAnimType::SolidColor(ERROR_COLOR_INDEX)),
            Sid::new(31),
        ),
        (Event::RgbAnim(RgbAnimType::Wheel), Sid::new(07)),
        (Event::RgbAnim(RgbAnimType::Pulse), Sid::new(19)),
        (Event::RgbAnim(RgbAnimType::PulseSolid(0)), Sid::new(24)),
        (Event::RgbAnim(RgbAnimType::PulseSolid(1)), Sid::new(20)),
        (Event::RgbAnim(RgbAnimType::PulseSolid(8)), Sid::new(02)),
        (
            Event::RgbAnim(RgbAnimType::PulseSolid(ERROR_COLOR_INDEX)),
            Sid::new(0),
        ),
        (Event::RgbAnim(RgbAnimType::Input), Sid::new(1)),
        (Event::RgbAnim(RgbAnimType::InputSolid(0)), Sid::new(2)),
        (Event::RgbAnim(RgbAnimType::InputSolid(1)), Sid::new(3)),
        (Event::RgbAnim(RgbAnimType::InputSolid(8)), Sid::new(5)),
        (
            Event::RgbAnim(RgbAnimType::InputSolid(ERROR_COLOR_INDEX)),
            Sid::new(7),
        ),
        (Event::RgbAnimChangeLayer(0), Sid::new(11)),
        (Event::RgbAnimChangeLayer(8), Sid::new(13)),
        (Event::SeedRng(0), Sid::new(17)),
        (Event::SeedRng(8), Sid::new(19)),
        (Event::SeedRng(255), Sid::new(21)),
    ]
}

#[test]
fn serde_test_ser_de() {
    for (event, sid) in valid_events().iter().copied() {
        let ser = serialize(event, sid).unwrap();
        let de = deserialize(ser).unwrap();
        assert_eq!(sid, de.1);
        assert_eq!(event, de.0);
    }
}

#[test]
fn test_bad_crc() {
    for (event, sid) in valid_events().iter().copied() {
        let ser = serialize(event, sid).unwrap();
        let mut bytes = ser.to_le_bytes();
        bytes[0] = bytes[0].wrapping_add(1);
        let bad_crc = u32::from_le_bytes(bytes);
        assert_eq!(Err(Error::Deserialization), deserialize(bad_crc));
    }
}

#[test]
fn checksum_is_crc16_kermit() {
    assert_eq!(checksum(0x0033), 0x9cca);
    assert_eq!(
        checksum(0x1234),
        crc16::State::<crc16::KERMIT>::calculate(&[0x34, 0x12])
    );
    assert_eq!(crc16::State::<crc16::KERMIT>::calculate(b"123456789"), 0x2189);
}

#[test]
fn message_layout() {
    // five bits of sequence id, three bits of kind, eight bits of data
    assert_eq!(Event::Press(3, 9).to_u16(Sid::new(31)), Ok(0xfb39));
    assert_eq!(Event::Ping.to_u16(Sid::new(0)), Ok(0x00cc));
    assert_eq!(Event::Ack(Sid::new(2)).to_u16(Sid::new(1)), Ok(0x0a02));
    assert_eq!(serialize(Event::Noop, Sid::new(0)), Ok(0x9cca_0033));
}

#[test]
fn keys_out_of_range_are_refused() {
    let sid = Sid::new(0);
    assert_eq!(serialize(Event::Press(4, 0), sid), Err(Error::Serialization));
    assert_eq!(serialize(Event::Press(0, 10), sid), Err(Error::Serialization));
    assert_eq!(serialize(Event::Release(4, 0), sid), Err(Error::Serialization));
    assert_eq!(serialize(Event::Release(0, 10), sid), Err(Error::Serialization));
    assert_eq!(
        serialize(Event::RgbAnim(RgbAnimType::SolidColor(32)), sid),
        Err(Error::Serialization)
    );
}

#[test]
fn payloads_without_meaning_are_refused() {
    for payload in [0x0000u16, 0x0001, 0x05e0, 0x05ff] {
        let msg = (payload as u32) | ((checksum(payload) as u32) << 16);
        assert_eq!(deserialize(msg), Err(Error::Deserialization));
    }
    // the keepalive word
    assert_eq!(deserialize(0), Err(Error::Deserialization));
}

#[test]
fn every_change_within_one_half_is_noticed() {
    let msg = serialize(Event::SeedRng(42), Sid::new(3)).unwrap();
    for flip in 1..=0xffffu32 {
        assert!(deserialize(msg ^ flip).is_err());
        assert!(deserialize(msg ^ (flip << 16)).is_err());
    }
}

#[test]
fn kinds_of_events() {
    let sid = Sid::new(1);
    assert!(Event::Retransmit(sid).is_retransmit());
    assert!(!Event::Ack(sid).is_retransmit());
    assert!(Event::Ack(sid).is_ack());
    assert!(Event::Ping.is_ping());
    assert!(Event::Noop.is_noop());
    assert!(Event::Ping.needs_ack());
    assert!(Event::Press(0, 0).needs_ack());
    assert!(!Event::Noop.needs_ack());
    assert!(!Event::Ack(sid).needs_ack());
    assert!(!Event::Retransmit(sid).needs_ack());
}
