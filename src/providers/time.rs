use vstd::prelude::*;

use chrono::Timelike;

use crate::data_type::TIME_TAG;
use crate::protocol::time_packet;
use crate::providers::feed::{bytes_of, feed_poll, feed_start, feed_stop, packet_views, packets, sent, Feed, FeedState};
use crate::providers::Provider;

verus! {

#[verifier::external_type_specification]
#[verifier::external_body]
pub struct ExNaiveTime(chrono::NaiveTime);

/// Relies on chrono's `Local::now`, taking its time of day: the current
/// local wall-clock time. Nothing is assumed of which time it is.
#[verifier::external_body]
fn local_time_of_day() -> chrono::NaiveTime {
    chrono::Local::now().time()
}

/// Relies on chrono's `Timelike::hour` for `NaiveTime`: documented to return
/// the hour number from 0 to 23.
#[verifier::external_body]
fn hour_of(t: &chrono::NaiveTime) -> (r: u32)
    ensures
        r < 24,
{
    t.hour()
}

/// Relies on chrono's `Timelike::minute` for `NaiveTime`: documented to
/// return the minute number from 0 to 59.
#[verifier::external_body]
fn minute_of(t: &chrono::NaiveTime) -> (r: u32)
    ensures
        r < 60,
{
    t.minute()
}

/// The local wall-clock hour and minute.
fn local_hour_minute() -> (r: (u8, u8))
    ensures
        r.0 < 24,
        r.1 < 60,
{
    let now = local_time_of_day();
    (hour_of(&now) as u8, minute_of(&now) as u8)
}

/// One poll of the time provider on hour `h` and minute `m`: the new state
/// and the packets sent.
pub open spec fn time_poll(s: FeedState, h: u8, m: u8) -> (FeedState, Seq<Seq<u8>>) {
    let (n, o) = feed_poll(s, Some(seq![TIME_TAG, h, m]));
    (n, sent(o))
}

/// Sends the local time, hour and minute, whenever it changes.
pub struct TimeProvider {
    feed: Feed,
}

impl View for TimeProvider {
    type V = FeedState;

    closed spec fn view(&self) -> FeedState {
        self.feed@
    }
}

impl TimeProvider {
    /// A stopped provider.
    pub fn new() -> (r: TimeProvider)
        ensures
            r@ == (FeedState { started: false, last: None }),
    {
        TimeProvider { feed: Feed::new() }
    }

    /// Reads the clock and polls with what it shows.
    pub fn poll_clock(&mut self) -> (out: Vec<Vec<u8>>)
        ensures
            exists|h: u8, m: u8| h < 24 && m < 60 && (final(self)@, packet_views(out)) == #[trigger] time_poll(old(self)@, h, m),
    {
        let (h, m) = local_hour_minute();
        let out = self.poll((h, m));
        assert(h < 24 && m < 60);
        out
    }
}

impl Provider for TimeProvider {
    /// Hour and minute.
    type Reading = (u8, u8);

    open spec fn wf(&self) -> bool {
        true
    }

    open spec fn started(&self) -> bool {
        self@.started
    }

    fn start(&mut self)
        ensures
            final(self)@ == feed_start(old(self)@),
    {
        self.feed.start();
    }

    fn stop(&mut self)
        ensures
            final(self)@ == feed_stop(old(self)@),
    {
        self.feed.stop();
    }

    fn poll(&mut self, observed: (u8, u8)) -> (out: Vec<Vec<u8>>)
        ensures
            (final(self)@, packet_views(out)) == time_poll(old(self)@, observed.0, observed.1),
    {
        let o = self.feed.poll(Some(time_packet(observed.0, observed.1)));
        packets(o)
    }
}

} // verus!
