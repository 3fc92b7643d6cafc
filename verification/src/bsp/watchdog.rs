//! The RK3566 watchdog, not armed yet.

use vstd::prelude::*;

verus! {

#[derive(Clone, Copy, Debug, PartialEq, Eq, Structural)]
pub struct Watchdog;

/// A watchdog for `timeout_secs`; the timeout is not programmed yet.
pub fn init(timeout_secs: u32) -> (w: Watchdog)
    ensures
        w == Watchdog,
{
    Watchdog
}

impl Watchdog {
    pub fn feed(&self) {
    }

    pub fn disable(&self) {
    }
}

} // verus!
