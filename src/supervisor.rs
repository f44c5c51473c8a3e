use vstd::prelude::*;

use crate::providers::feed::{feed_poll, feed_start, feed_stop, FeedState};

verus! {

/// Pause between stopping and restarting the providers when a device joins
/// while they run, so that sends in flight drain first.
pub const SETTLE_DELAY_MS: u64 = 200;

/// What the caller does to every provider after a connectivity notification.
#[derive(Clone, Copy, Debug, PartialEq, Eq, Structural)]
pub enum SupervisorAction {
    /// Leave the providers as they are.
    Nothing,
    /// Start every provider.
    StartAll,
    /// Stop every provider.
    StopAll,
    /// Stop every provider, wait `settle_ms`, then start them again, so that
    /// a device that just joined receives every current value.
    Restart { settle_ms: u64 },
}

/// Mathematical state of the supervisor: the number of connected devices and
/// whether the providers run.
pub struct SupervisorState {
    pub count: int,
    pub started: bool,
}

impl SupervisorState {
    /// The providers run exactly while some device is connected.
    pub open spec fn wf(self) -> bool {
        self.count >= 0 && self.started == (self.count > 0)
    }
}

/// The device count after one notification; an extra disconnect at zero is
/// absorbed.
pub open spec fn next_count(count: int, connected: bool) -> int {
    if connected {
        count + 1
    } else if count > 0 {
        count - 1
    } else {
        0
    }
}

/// The device count after a series of notifications.
pub open spec fn count_after(count: int, events: Seq<bool>) -> int
    decreases events.len(),
{
    if events.len() == 0 {
        count
    } else {
        count_after(next_count(count, events[0]), events.subrange(1, events.len() as int))
    }
}

/// One step of the supervisor on a connectivity notification.
pub open spec fn supervise(s: SupervisorState, connected: bool) -> (SupervisorState, SupervisorAction) {
    let count = next_count(s.count, connected);
    let action = if s.started && connected {
        SupervisorAction::Restart { settle_ms: SETTLE_DELAY_MS }
    } else if s.started && count == 0 {
        SupervisorAction::StopAll
    } else if !s.started && count > 0 {
        SupervisorAction::StartAll
    } else {
        SupervisorAction::Nothing
    };
    (SupervisorState { count, started: count > 0 }, action)
}

/// Counts the connected devices from their notifications and decides when
/// the providers start, stop, or restart.
pub struct Supervisor {
    count: u64,
    started: bool,
}

impl View for Supervisor {
    type V = SupervisorState;

    closed spec fn view(&self) -> SupervisorState {
        SupervisorState { count: self.count as int, started: self.started }
    }
}

impl Supervisor {
    /// No device connected, providers stopped.
    pub fn new() -> (r: Supervisor)
        ensures
            r@ == (SupervisorState { count: 0, started: false }),
            r@.wf(),
    {
        Supervisor { count: 0, started: false }
    }

    /// Number of devices connected now.
    pub fn count(&self) -> (r: u64)
        ensures
            r == self@.count,
    {
        self.count
    }

    /// Whether the providers run.
    pub fn is_started(&self) -> (r: bool)
        ensures
            r == self@.started,
    {
        self.started
    }

    /// Takes one notification: `true` when a device connected, `false` when
    /// one disconnected.
    pub fn on_connectivity(&mut self, connected: bool) -> (a: SupervisorAction)
        requires
            old(self)@.wf(),
            old(self)@.count < u64::MAX,
        ensures
            final(self)@.wf(),
            (final(self)@, a) == supervise(old(self)@, connected),
    {
        let count: u64 = if connected {
            self.count + 1
        } else if self.count > 0 {
            self.count - 1
        } else {
            0
        };
        let action = if self.started && connected {
            SupervisorAction::Restart { settle_ms: SETTLE_DELAY_MS }
        } else if self.started && count == 0 {
            SupervisorAction::StopAll
        } else if !self.started && count > 0 {
            SupervisorAction::StartAll
        } else {
            SupervisorAction::Nothing
        };
        self.count = count;
        self.started = count > 0;
        action
    }
}

/// The device count never goes below zero, whatever the order of connect and
/// disconnect notifications, duplicates included.
pub proof fn lemma_count_never_negative(count: int, events: Seq<bool>)
    requires
        count >= 0,
    ensures
        count_after(count, events) >= 0,
    decreases events.len(),
{
    if events.len() > 0 {
        lemma_count_never_negative(next_count(count, events[0]), events.subrange(1, events.len() as int));
    }
}

/// Providers start exactly when the count goes from zero to positive, stop
/// exactly when it goes from positive to zero, and restart exactly when it
/// grows while they already run.
pub proof fn lemma_transitions_exact(s: SupervisorState, connected: bool)
    requires
        s.wf(),
    ensures
        ({
            let (n, a) = supervise(s, connected);
            &&& n.wf()
            &&& (a == SupervisorAction::StartAll) <==> (s.count == 0 && n.count > 0)
            &&& (a == SupervisorAction::StopAll) <==> (s.count > 0 && n.count == 0)
            &&& (a is Restart) <==> (s.count > 0 && n.count > s.count)
            &&& (a == SupervisorAction::StartAll) ==> !s.started
            &&& (a == SupervisorAction::StopAll) ==> s.started
            &&& (s.count > 0 && n.count > 0 && !connected) ==> a == SupervisorAction::Nothing && n.started
        }),
{
}

/// A device that joins while one is already connected makes every provider
/// stop, wait the settle delay, and start again; the count grows by one.
pub proof fn lemma_resync_on_join(s: SupervisorState)
    requires
        s.wf(),
        s.count >= 1,
    ensures
        supervise(s, true) == (
        SupervisorState { count: s.count + 1, started: true },
        SupervisorAction::Restart { settle_ms: SETTLE_DELAY_MS },
        ),
{
}

/// A device that joins while another is connected gets every current value:
/// the supervisor restarts the providers, and each provider, whatever it sent
/// before, sends its current reading again on its first poll after the
/// restart.
pub proof fn lemma_join_resends_everything(s: SupervisorState, feeds: Seq<FeedState>, current: Seq<Seq<u8>>)
    requires
        s.wf(),
        s.count >= 1,
        feeds.len() == current.len(),
    ensures
        supervise(s, true).1 == (SupervisorAction::Restart { settle_ms: SETTLE_DELAY_MS }),
        forall|i: int|
            0 <= i < feeds.len() ==> (#[trigger] feed_poll(feed_start(feed_stop(feeds[i])), Some(current[i]))).1
                == Some(current[i]),
{
    lemma_resync_on_join(s);
}

/// The state reached and the actions decided over a series of notifications.
pub open spec fn supervise_run(s: SupervisorState, events: Seq<bool>) -> (SupervisorState, Seq<SupervisorAction>)
    decreases events.len(),
{
    if events.len() == 0 {
        (s, Seq::empty())
    } else {
        let (next, a) = supervise(s, events[0]);
        let (last, rest) = supervise_run(next, events.subrange(1, events.len() as int));
        (last, seq![a] + rest)
    }
}

/// The start and stop decisions of a series of actions, in order: `true`
/// for a start, `false` for a stop; restarts and no-ops are left out.
pub open spec fn starts_and_stops(actions: Seq<SupervisorAction>) -> Seq<bool>
    decreases actions.len(),
{
    if actions.len() == 0 {
        Seq::empty()
    } else {
        let rest = starts_and_stops(actions.subrange(1, actions.len() as int));
        match actions[0] {
            SupervisorAction::StartAll => seq![true] + rest,
            SupervisorAction::StopAll => seq![false] + rest,
            _ => rest,
        }
    }
}

/// Over any series of notifications, the count is the clamped sum of the
/// notifications, the providers run exactly while it is positive, and
/// starts and stops alternate: no provider is started twice, or stopped
/// twice, without the other in between; from idle the first is a start.
pub proof fn lemma_run_alternates(s: SupervisorState, events: Seq<bool>)
    requires
        s.wf(),
    ensures
        supervise_run(s, events).0.wf(),
        supervise_run(s, events).0.count == count_after(s.count, events),
        ({
            let ds = starts_and_stops(supervise_run(s, events).1);
            forall|i: int| 0 <= i < ds.len() ==> #[trigger] ds[i] == (if i % 2 == 0 { !s.started } else { s.started })
        }),
    decreases events.len(),
{
    if events.len() > 0 {
        let rest = events.subrange(1, events.len() as int);
        let (next, a) = supervise(s, events[0]);
        lemma_run_alternates(next, rest);
        let actions = supervise_run(s, events).1;
        let tail = supervise_run(next, rest).1;
        assert(actions.subrange(1, actions.len() as int) =~= tail);
        let ds = starts_and_stops(actions);
        let dt = starts_and_stops(tail);
        if a == SupervisorAction::StartAll || a == SupervisorAction::StopAll {
            assert(ds =~= seq![a == SupervisorAction::StartAll] + dt);
            assert(next.started == !s.started);
            assert forall|i: int| 0 <= i < ds.len() implies #[trigger] ds[i] == (if i % 2 == 0 { !s.started } else { s.started }) by {
                if i > 0 {
                    assert(ds[i] == dt[i - 1]);
                    assert((i - 1) % 2 == 0 <==> i % 2 != 0);
                }
            }
        } else {
            assert(ds =~= dt);
            assert(next.started == s.started);
        }
    }
}

} // verus!
