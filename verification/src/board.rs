//! The keyboards that the firmware runs on.
use vstd::prelude::*;

verus! {

/// The keyboard
#[derive(Debug, Clone, Copy, PartialEq, Eq, Structural)]
pub enum Board {
    /// Charybdis Nano, with a trackball
    Cnano,
    /// Dilemma, with a trackpad and rotary encoders
    Dilemma,
}

} // verus!
