//! GPIO pins of the RK3566, not driven yet: pins read low.

use vstd::prelude::*;

verus! {

/// Pin `pin` of bank `bank`.
#[derive(Clone, Copy, Debug, PartialEq, Eq, Structural)]
pub struct GpioPin {
    pub bank: u8,
    pub pin: u8,
}

/// GPIO set-up: nothing to do yet.
pub fn init() {
}

impl GpioPin {
    pub fn new(bank: u8, pin: u8) -> (p: GpioPin)
        ensures
            p.bank == bank && p.pin == pin,
    {
        GpioPin { bank, pin }
    }

    pub fn set_output(&self) {
    }

    pub fn set_input(&self) {
    }

    pub fn write(&self, high: bool) {
    }

    pub fn read(&self) -> (high: bool)
        ensures
            !high,
    {
        false
    }
}

} // verus!
