use vstd::prelude::*;

use crate::data_type::VOLUME_TAG;
use crate::protocol::volume_packet;
use crate::providers::feed::{bytes_of, feed_poll, feed_start, feed_stop, packet_views, packets, sent, Feed, FeedState};
use crate::providers::Provider;

verus! {

/// Volume `volume` of an output whose full scale is `base`, as a percentage
/// rounded to the nearest integer (halves up) and capped at 100, since an
/// output may be boosted past its full scale; no value when the scale is
/// zero.
pub open spec fn percent_of(volume: u32, base: u32) -> Option<u8> {
    if base == 0 {
        None
    } else {
        let q = (200 * volume as int + base as int) / (2 * base as int);
        Some(if q > 100 { 100u8 } else { q as u8 })
    }
}

/// The percentage that a raw volume reading stands for.
pub fn volume_percent(volume: u32, base: u32) -> (r: Option<u8>)
    ensures
        r == percent_of(volume, base),
{
    if base == 0 {
        return None;
    }
    let v = volume as u64;
    let b = base as u64;
    let q: u64 = (200 * v + b) / (2 * b);
    Some(if q > 100 { 100u8 } else { q as u8 })
}

/// One poll of the volume provider on an optional percentage: the new state
/// and the packets sent.
pub open spec fn volume_poll(s: FeedState, observed: Option<u8>) -> (FeedState, Seq<Seq<u8>>) {
    let (n, o) = feed_poll(
        s,
        match observed {
            Some(p) => Some(seq![VOLUME_TAG, p]),
            None => None,
        },
    );
    (n, sent(o))
}

/// Sends the output volume, as a percentage, whenever it changes.
pub struct VolumeProvider {
    feed: Feed,
}

impl View for VolumeProvider {
    type V = FeedState;

    closed spec fn view(&self) -> FeedState {
        self.feed@
    }
}

impl VolumeProvider {
    /// A stopped provider.
    pub fn new() -> (r: VolumeProvider)
        ensures
            r@ == (FeedState { started: false, last: None }),
    {
        VolumeProvider { feed: Feed::new() }
    }
}

impl Provider for VolumeProvider {
    /// The volume in percent; `None` when the source could not be read.
    type Reading = Option<u8>;

    open spec fn wf(&self) -> bool {
        true
    }

    open spec fn started(&self) -> bool {
        self@.started
    }

    fn start(&mut self)
        ensures
            final(self)@ == feed_start(old(self)@),
    {
        self.feed.start();
    }

    fn stop(&mut self)
        ensures
            final(self)@ == feed_stop(old(self)@),
    {
        self.feed.stop();
    }

    fn poll(&mut self, observed: Option<u8>) -> (out: Vec<Vec<u8>>)
        ensures
            (final(self)@, packet_views(out)) == volume_poll(old(self)@, observed),
    {
        let packet = match observed {
            Some(p) => Some(volume_packet(p)),
            None => None,
        };
        assert(bytes_of(packet) == match observed {
            Some(p) => Some(seq![VOLUME_TAG, p]),
            None => None::<Seq<u8>>,
        });
        let o = self.feed.poll(packet);
        packets(o)
    }
}

} // verus!
