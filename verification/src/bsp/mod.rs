//! The Rockchip RK3566 board: its Ethernet controllers, GPIO pins and
//! watchdog, which are not driven yet.

pub mod ethernet;
pub mod gpio;
pub mod watchdog;

use vstd::prelude::*;

verus! {

/// Board set-up: nothing to do yet.
pub fn init() {
}

} // verus!
