//! The RK3566's two gigabit Ethernet controllers, not driven yet: links
//! are down, addresses zero, nothing is received.

use vstd::prelude::*;

verus! {

/// One Ethernet controller and its PHY address.
#[derive(Clone, Copy, Debug, PartialEq, Eq, Structural)]
pub struct EthernetController {
    pub index: u8,
    pub phy_addr: u8,
}

/// The two controllers, with PHYs at addresses 0 and 1.
pub fn init() -> (c: Vec<EthernetController>)
    ensures
        c@ == seq![
            EthernetController { index: 0, phy_addr: 0 },
            EthernetController { index: 1, phy_addr: 1 },
        ],
{
    let mut c: Vec<EthernetController> = Vec::new();
    c.push(EthernetController { index: 0, phy_addr: 0 });
    c.push(EthernetController { index: 1, phy_addr: 1 });
    assert(c@ =~= seq![
        EthernetController { index: 0, phy_addr: 0 },
        EthernetController { index: 1, phy_addr: 1 },
    ]);
    c
}

impl EthernetController {
    pub fn link_up(&self) -> (up: bool)
        ensures
            !up,
    {
        false
    }

    pub fn mac_address(&self) -> (mac: [u8; 6])
        ensures
            mac@ == seq![0u8, 0, 0, 0, 0, 0],
    {
        let mac = [0u8, 0, 0, 0, 0, 0];
        assert(mac@ =~= seq![0u8, 0, 0, 0, 0, 0]);
        mac
    }

    /// Frames are dropped.
    pub fn send(&self, data: &[u8]) {
    }

    pub fn receive(&self) -> (frame: Option<Vec<u8>>)
        ensures
            frame is None,
    {
        None
    }
}

} // verus!
