//! Signal providers. Each one turns readings of one kind of host state into
//! packets, sending a reading only when it differs from the last one sent.

use vstd::prelude::*;

pub mod feed;
pub mod layout;
pub mod media;
pub mod relay;
pub mod time;
pub mod volume;

verus! {

/// A producer of packets for the host-to-device bus.
///
/// `start` arms the provider and forgets what it sent before, so that the
/// first reading after it is always sent; `stop` disarms it; `poll` takes one
/// reading of the provider's source and returns the packets to send.
pub trait Provider {
    /// What one reading of the provider's source holds.
    type Reading;

    /// The provider's internal state is consistent.
    spec fn wf(&self) -> bool;

    spec fn started(&self) -> bool;

    fn start(&mut self)
        requires
            old(self).wf(),
        ensures
            final(self).wf(),
            final(self).started(),
    ;

    fn stop(&mut self)
        requires
            old(self).wf(),
        ensures
            final(self).wf(),
            !final(self).started(),
    ;

    fn poll(&mut self, observed: Self::Reading) -> (out: Vec<Vec<u8>>)
        requires
            old(self).wf(),
        ensures
            final(self).wf(),
            final(self).started() == old(self).started(),
            !old(self).started() ==> out@.len() == 0,
    ;
}

} // verus!
