//! Firmware logic of a split keyboard with a pointing device.

pub mod board;
pub mod clock;
pub mod crc;
pub mod event_queue;
pub mod hid;
pub mod keyboard;
pub mod keys;
pub mod mouse;
pub mod mouse_move;
pub mod prng;
pub mod protocol;
pub mod rgb_anims;
pub mod rgb_leds;
pub mod serde;
pub mod sid;
pub mod side;
pub mod trackball;
pub mod trackpad;
