//! Clock dividers of the PIO state machines, as fixed-point numbers with eight
//! fractional bits.
use vstd::prelude::*;

use fixed::types::{U24F8, U56F8};

verus! {

/// Speed of the PIO state machine that talks to the other half, in bps
pub const SPEED: u64 = 460_800;

/// Frequency of the WS2812 leds, in kHz
pub const WS2812_FREQ_KHZ: u32 = 800;

/// Cycles that the PIO state machine of the leds takes per bit
pub const CYCLES_PER_BIT: u32 = 10;

/// Calls the division of `fixed::types::U24F8` by `U24F8`. The operands and the result
/// are given by their bits. Claimed: the quotient is rounded down to a multiple of
/// `1/256`.
#[verifier::external_body]
pub(crate) fn div_u24f8(a: u32, b: u32) -> (q: u32)
    requires
        b > 0,
        a * 256 / b as int <= u32::MAX,
    ensures
        q == a * 256 / b as int,
{
    (U24F8::from_bits(a) / U24F8::from_bits(b)).to_bits()
}

/// Calls the division of `fixed::types::U56F8` by `u64`. The dividend and the result are
/// given by their bits. Claimed: the quotient is rounded down to a multiple of `1/256`.
#[verifier::external_body]
pub(crate) fn div_u56f8(a: u64, n: u64) -> (q: u64)
    requires
        n > 0,
    ensures
        q == a as int / n as int,
{
    (U56F8::from_bits(a) / n).to_bits()
}

/// Clock divider of the leds, given the frequency of the system clock in Hz: the bits of
/// a number with eight fractional bits
pub fn ws2812_clock_divider(clk_sys_freq: u32) -> (bits: u32)
    ensures
        bits == (clk_sys_freq as int / 1000) * 256 / (WS2812_FREQ_KHZ * CYCLES_PER_BIT),
{
    // measured in kHz to avoid overflows
    let clock_freq: u32 = (clk_sys_freq / 1000) * 256;
    let bit_freq: u32 = WS2812_FREQ_KHZ * 256 * CYCLES_PER_BIT;
    assert(bit_freq == 2_048_000);
    assert(clock_freq * 256 / 2_048_000 == clock_freq as int / 8000);
    div_u24f8(clock_freq, bit_freq)
}

/// Clock divider of the communication between the halves, given the frequency of the
/// system clock in Hz: the bits of a number with eight fractional bits
pub fn pio_freq(clk_sys_freq: u32) -> (bits: u32)
    ensures
        bits == clk_sys_freq * 256 / (8 * SPEED),
{
    let bits: u64 = div_u56f8((clk_sys_freq as u64) * 256, 8 * SPEED);
    bits as u32
}

/// The divider of the leds brings the system clock, in whole kHz, down to ten cycles per bit
/// at 800 kHz, rounded down to a multiple of 1/256.
pub proof fn law_led_divider(clk_sys_freq: u32, bits: u32)
    requires
        call_ensures(ws2812_clock_divider, (clk_sys_freq,), bits),
    ensures
        bits * 8000 <= (clk_sys_freq as int / 1000) * 256 < (bits + 1) * 8000,
{
    assert(WS2812_FREQ_KHZ * CYCLES_PER_BIT == 8000);
}

/// The divider of the communication brings the system clock down to eight cycles per bit at
/// 460800 bits per second, rounded down to a multiple of 1/256.
pub proof fn law_communication_divider(clk_sys_freq: u32, bits: u32)
    requires
        call_ensures(pio_freq, (clk_sys_freq,), bits),
    ensures
        bits * 3_686_400 <= clk_sys_freq * 256 < (bits + 1) * 3_686_400,
{
    assert(8 * SPEED == 3_686_400);
}

} // verus!
