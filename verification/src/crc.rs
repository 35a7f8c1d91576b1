//! The checksum that protects the messages between the two halves.
use vstd::prelude::*;

verus! {

/// One step of the division by the CCITT polynomial `0x1021`, least significant
/// bit first: the polynomial is read backwards, as `0x8408`.
pub open spec fn crc_step(crc: u16) -> u16 {
    if crc & 1 == 1 {
        (crc >> 1) ^ 0x8408
    } else {
        crc >> 1
    }
}

/// The remainder after one more byte of the message.
pub open spec fn crc_byte(crc: u16, byte: u8) -> u16 {
    crc_step(
        crc_step(crc_step(crc_step(crc_step(crc_step(crc_step(crc_step(crc ^ (byte as u16)))))))),
    )
}

/// CRC-16/KERMIT: polynomial `0x1021`, initial value 0, bytes and result bit
/// reversed, no final exclusive or.
pub open spec fn crc_kermit(bytes: Seq<u8>) -> u16
    decreases bytes.len(),
{
    if bytes.len() == 0 {
        0
    } else {
        crc_byte(crc_kermit(bytes.drop_last()), bytes.last())
    }
}

/// The checksum of a message's payload, sent low byte first.
pub open spec fn payload_crc(payload: u16) -> u16 {
    crc_kermit(seq![(payload % 256) as u8, (payload / 256) as u8])
}

/// Calls `crc16::State::<crc16::KERMIT>::calculate`. The crate defines `KERMIT` by
/// `poly=0x1021, init=0x0000, refin=True, refout=True, xorout=0x0000`; the result is
/// claimed to be the remainder that these parameters describe.
#[verifier::external_body]
pub(crate) fn calculate_kermit(bytes: &[u8]) -> (crc: u16)
    ensures
        crc == crc_kermit(bytes@),
{
    crc16::State::<crc16::KERMIT>::calculate(bytes)
}

/// The checksum of a payload.
pub fn checksum(payload: u16) -> (crc: u16)
    ensures
        crc == payload_crc(payload),
{
    let bytes: [u8; 2] = [(payload % 256) as u8, (payload / 256) as u8];
    let crc = calculate_kermit(&bytes);
    assert(bytes@ =~= seq![(payload % 256) as u8, (payload / 256) as u8]);
    crc
}

proof fn lemma_payload_crc_unfold(payload: u16)
    ensures
        payload_crc(payload) == crc_byte(
            crc_byte(0, (payload % 256) as u8),
            (payload / 256) as u8,
        ),
{
    let lo = (payload % 256) as u8;
    let hi = (payload / 256) as u8;
    let both = seq![lo, hi];
    assert(both.drop_last() =~= seq![lo]);
    assert(seq![lo].drop_last() =~= Seq::<u8>::empty());
    reveal_with_fuel(crc_kermit, 3);
}

proof fn lemma_step_linear(a: u16, b: u16)
    ensures
        crc_step(a ^ b) == crc_step(a) ^ crc_step(b),
{
    assert(crc_step(a ^ b) == crc_step(a) ^ crc_step(b)) by (bit_vector);
}

proof fn lemma_step_injective(a: u16, b: u16)
    requires
        crc_step(a) == crc_step(b),
    ensures
        a == b,
{
    assert(crc_step(a) == crc_step(b) ==> a == b) by (bit_vector);
}

/// Eight steps, started from the exclusive or of two states.
proof fn lemma_eight_steps(a: u16, b: u16)
    ensures
        crc_byte(a ^ b, 0) == crc_byte(a, 0) ^ crc_byte(b, 0),
        crc_byte(a, 0) == crc_byte(b, 0) ==> a == b,
        a < 256 && crc_byte(a, 0) < 256 ==> a == 0,
{
    let zero: u16 = 0;
    assert(a ^ zero == a && b ^ zero == b && (a ^ b) ^ zero == a ^ b) by (bit_vector)
        requires
            zero == 0,
    ;
    let (a1, b1) = (crc_step(a), crc_step(b));
    let (a2, b2) = (crc_step(a1), crc_step(b1));
    let (a3, b3) = (crc_step(a2), crc_step(b2));
    let (a4, b4) = (crc_step(a3), crc_step(b3));
    let (a5, b5) = (crc_step(a4), crc_step(b4));
    let (a6, b6) = (crc_step(a5), crc_step(b5));
    let (a7, b7) = (crc_step(a6), crc_step(b6));
    let (a8, b8) = (crc_step(a7), crc_step(b7));
    lemma_step_linear(a, b);
    lemma_step_linear(a1, b1);
    lemma_step_linear(a2, b2);
    lemma_step_linear(a3, b3);
    lemma_step_linear(a4, b4);
    lemma_step_linear(a5, b5);
    lemma_step_linear(a6, b6);
    lemma_step_linear(a7, b7);
    if a8 == b8 {
        lemma_step_injective(a7, b7);
        lemma_step_injective(a6, b6);
        lemma_step_injective(a5, b5);
        lemma_step_injective(a4, b4);
        lemma_step_injective(a3, b3);
        lemma_step_injective(a2, b2);
        lemma_step_injective(a1, b1);
        lemma_step_injective(a, b);
    }
    assert(a < 256 && a8 < 256 ==> a == 0) by (bit_vector)
        requires
            a1 == crc_step(a),
            a2 == crc_step(a1),
            a3 == crc_step(a2),
            a4 == crc_step(a3),
            a5 == crc_step(a4),
            a6 == crc_step(a5),
            a7 == crc_step(a6),
            a8 == crc_step(a7),
    ;
}

/// Two different payloads never have the same checksum, so that any corruption that
/// stays within the payload is noticed.
pub proof fn law_payload_crc_injective(p: u16, q: u16)
    ensures
        payload_crc(p) == payload_crc(q) ==> p == q,
{
    lemma_payload_crc_unfold(p);
    lemma_payload_crc_unfold(q);
    let (p0, p1) = ((p % 256) as u8 as u16, (p / 256) as u8 as u16);
    let (q0, q1) = ((q % 256) as u8 as u16, (q / 256) as u8 as u16);
    let (x, y) = (crc_byte(p0, 0), crc_byte(q0, 0));
    let zero: u16 = 0;
    assert(zero ^ p0 == p0 ^ zero && zero ^ q0 == q0 ^ zero && (x ^ p1) ^ zero == x ^ p1 && (y ^ q1)
        ^ zero == y ^ q1) by (bit_vector)
        requires
            zero == 0,
    ;
    if payload_crc(p) == payload_crc(q) {
        lemma_eight_steps(x ^ p1, y ^ q1);
        lemma_eight_steps(p0, q0);
        lemma_eight_steps(p0 ^ q0, 0);
        assert(p0 ^ q0 < 256 && x ^ y < 256) by (bit_vector)
            requires
                p0 < 256,
                q0 < 256,
                p1 < 256,
                q1 < 256,
                x ^ p1 == y ^ q1,
        ;
        assert(p0 == q0) by (bit_vector)
            requires
                p0 ^ q0 == 0,
        ;
        assert(p1 == q1) by (bit_vector)
            requires
                x ^ p1 == y ^ q1,
                x == y,
        ;
    }
}

/// The checksum of a payload is that of its two bytes, the low one first.
pub proof fn law_checksum_of_two_bytes(lo: u8, hi: u8, crc: u16)
    requires
        call_ensures(checksum, ((lo + 256 * hi) as u16,), crc),
    ensures
        crc == crc_kermit(seq![lo, hi]),
{
    let payload = (lo + 256 * hi) as u16;
    assert((payload % 256) as u8 == lo && (payload / 256) as u8 == hi);
}

} // verus!
