use vstd::prelude::*;

use crate::protocol::{relay_to_device, relayed};
use crate::providers::feed::{packet_views, packets, sent};
use crate::providers::Provider;

verus! {

/// The packets that a relay provider sends for a device-to-host packet.
pub open spec fn relay_poll(started: bool, p: Seq<u8>) -> Seq<Seq<u8>> {
    if started {
        sent(relayed(p))
    } else {
        Seq::empty()
    }
}

/// Sends every relay packet read from a device back to the devices, under
/// the host-to-device relay tag. It has no change suppression: every packet
/// is forwarded.
pub struct RelayProvider {
    started: bool,
}

impl View for RelayProvider {
    type V = bool;

    closed spec fn view(&self) -> bool {
        self.started
    }
}

impl RelayProvider {
    /// A stopped provider.
    pub fn new() -> (r: RelayProvider)
        ensures
            !r@,
    {
        RelayProvider { started: false }
    }
}

impl Provider for RelayProvider {
    /// One packet read from the device-to-host bus.
    type Reading = Vec<u8>;

    open spec fn wf(&self) -> bool {
        true
    }

    open spec fn started(&self) -> bool {
        self@
    }

    fn start(&mut self) {
        self.started = true;
    }

    fn stop(&mut self) {
        self.started = false;
    }

    fn poll(&mut self, observed: Vec<u8>) -> (out: Vec<Vec<u8>>)
        ensures
            packet_views(out) == relay_poll(old(self)@, observed@),
    {
        if !self.started {
            return Vec::new();
        }
        packets(relay_to_device(observed.as_slice()))
    }
}

} // verus!
