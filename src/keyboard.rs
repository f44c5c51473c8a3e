use vstd::prelude::*;

use std::borrow::ToOwned;

use crate::config::Device;

verus! {

/// HID usage the firmware's raw channel answers on, unless configured.
pub const DEFAULT_USAGE: u16 = 0x61;

/// HID usage page the firmware's raw channel answers on, unless configured.
pub const DEFAULT_USAGE_PAGE: u16 = 0xff60;

/// One entry of the host's HID device list, as far as discovery reads it.
#[derive(Clone, Copy, Debug, PartialEq, Eq, Structural)]
pub struct HidEntry {
    pub product_id: u16,
    pub usage: u16,
    pub usage_page: u16,
}

/// One configured device, with its filters resolved.
pub struct Keyboard {
    pub name: String,
    pub product_id: u16,
    pub usage: u16,
    pub usage_page: u16,
    /// Milliseconds between discovery attempts.
    pub reconnect_delay: u64,
}

/// Connection state of one device.
#[derive(Clone, Copy, Debug, PartialEq, Eq, Structural)]
pub enum ConnectionState {
    Disconnected,
    Connected,
}

/// What a connector learns from the device side.
#[derive(Clone, Copy, Debug, PartialEq, Eq, Structural)]
pub enum LinkEvent {
    /// No enumerated device matched.
    NotFound,
    /// A device matched but could not be opened.
    OpenFailed,
    /// A matching device was opened.
    Opened,
    /// A read or a write on the open device failed.
    IoFailed,
}

/// What the caller does next for one connector.
#[derive(Clone, Copy, Debug, PartialEq, Eq, Structural)]
pub enum LinkAction {
    /// Sleep `delay_ms`, then enumerate the devices again.
    Retry { delay_ms: u64 },
    /// Start the writer loop, and the reader loop when `reader` holds, then
    /// notify `true`.
    Attach { reader: bool },
    /// Stop both loops, notify `false`, sleep `delay_ms`, then enumerate again.
    Detach { delay_ms: u64 },
    /// Nothing to do.
    Ignore,
}

/// One step of the reconnect machine.
pub open spec fn link_step(state: ConnectionState, event: LinkEvent, delay_ms: u64, relay: bool) -> (
    ConnectionState,
    LinkAction,
) {
    match (state, event) {
        (ConnectionState::Disconnected, LinkEvent::NotFound) => (
            ConnectionState::Disconnected,
            LinkAction::Retry { delay_ms },
        ),
        (ConnectionState::Disconnected, LinkEvent::OpenFailed) => (
            ConnectionState::Disconnected,
            LinkAction::Retry { delay_ms },
        ),
        (ConnectionState::Disconnected, LinkEvent::Opened) => (
            ConnectionState::Connected,
            LinkAction::Attach { reader: relay },
        ),
        (ConnectionState::Connected, LinkEvent::IoFailed) => (
            ConnectionState::Disconnected,
            LinkAction::Detach { delay_ms },
        ),
        _ => (state, LinkAction::Ignore),
    }
}

/// The state reached and the actions taken over a series of events.
pub open spec fn link_run(state: ConnectionState, events: Seq<LinkEvent>, delay_ms: u64, relay: bool) -> (
    ConnectionState,
    Seq<LinkAction>,
)
    decreases events.len(),
{
    if events.len() == 0 {
        (state, Seq::empty())
    } else {
        let (next, action) = link_step(state, events[0], delay_ms, relay);
        let (last, rest) = link_run(next, events.subrange(1, events.len() as int), delay_ms, relay);
        (last, seq![action] + rest)
    }
}

/// The connectivity notification that an action sends, if any.
pub open spec fn notification(a: LinkAction) -> Option<bool> {
    match a {
        LinkAction::Attach { .. } => Some(true),
        LinkAction::Detach { .. } => Some(false),
        _ => None,
    }
}

impl Keyboard {
    pub open spec fn spec_matches(&self, e: HidEntry) -> bool {
        e.product_id == self.product_id && e.usage == self.usage && e.usage_page == self.usage_page
    }

    /// Resolves a configured device: unnamed devices are called "keyboard",
    /// and a missing usage or usage page takes the firmware's default.
    pub fn new(device: &Device, reconnect_delay: u64) -> (r: Keyboard)
        ensures
            device.name matches Some(n) ==> r.name@ == n@,
            device.name is None ==> r.name@ == seq!['k', 'e', 'y', 'b', 'o', 'a', 'r', 'd'],
            r.product_id == device.product_id,
            r.usage == match device.usage {
                Some(u) => u,
                None => DEFAULT_USAGE,
            },
            r.usage_page == match device.usage_page {
                Some(u) => u,
                None => DEFAULT_USAGE_PAGE,
            },
            r.reconnect_delay == reconnect_delay,
    {
        let name = match &device.name {
            Some(n) => n.clone(),
            None => {
                let n = "keyboard".to_owned();
                proof {
                    reveal_strlit("keyboard");
                    assert(n@ =~= seq!['k', 'e', 'y', 'b', 'o', 'a', 'r', 'd']);
                }
                n
            },
        };
        let usage = match device.usage {
            Some(u) => u,
            None => DEFAULT_USAGE,
        };
        let usage_page = match device.usage_page {
            Some(u) => u,
            None => DEFAULT_USAGE_PAGE,
        };
        Keyboard { name, product_id: device.product_id, usage, usage_page, reconnect_delay }
    }

    /// Whether a listed device is this one: product id, usage and usage page
    /// all equal.
    pub fn matches(&self, e: &HidEntry) -> (r: bool)
        ensures
            r == self.spec_matches(*e),
    {
        e.product_id == self.product_id && e.usage == self.usage && e.usage_page == self.usage_page
    }

    /// Index of the first listed device that is this one.
    pub fn find_device(&self, entries: &[HidEntry]) -> (r: Option<usize>)
        ensures
            r matches Some(i) ==> i < entries@.len() && self.spec_matches(entries@[i as int])
                && forall|j: int| 0 <= j < i ==> !self.spec_matches(#[trigger] entries@[j]),
            r is None ==> forall|j: int| 0 <= j < entries@.len() ==> !self.spec_matches(#[trigger] entries@[j]),
    {
        let mut i: usize = 0;
        while i < entries.len()
            invariant
                0 <= i <= entries@.len(),
                forall|j: int| 0 <= j < i ==> !self.spec_matches(#[trigger] entries@[j]),
            decreases entries@.len() - i,
        {
            if self.matches(&entries[i]) {
                return Some(i);
            }
            i += 1;
        }
        None
    }
}

/// The reconnect machine of one device: it decides, from what discovery and
/// the device loops report, when to retry, attach, or detach.
pub struct Connector {
    state: ConnectionState,
    delay_ms: u64,
    relay: bool,
}

impl Connector {
    pub closed spec fn state(&self) -> ConnectionState {
        self.state
    }

    pub closed spec fn delay_ms(&self) -> u64 {
        self.delay_ms
    }

    pub closed spec fn relay(&self) -> bool {
        self.relay
    }

    /// A disconnected connector for `keyboard`; `relay` says whether a reader
    /// loop runs beside the writer.
    pub fn new(keyboard: &Keyboard, relay: bool) -> (r: Connector)
        ensures
            r.state() == ConnectionState::Disconnected,
            r.delay_ms() == keyboard.reconnect_delay,
            r.relay() == relay,
    {
        Connector { state: ConnectionState::Disconnected, delay_ms: keyboard.reconnect_delay, relay }
    }

    /// Whether the device is connected now.
    pub fn is_connected(&self) -> (r: bool)
        ensures
            r == (self.state() == ConnectionState::Connected),
    {
        self.state == ConnectionState::Connected
    }

    /// Takes one event and returns what to do.
    pub fn on_event(&mut self, event: LinkEvent) -> (a: LinkAction)
        ensures
            (final(self).state(), a) == link_step(old(self).state(), event, old(self).delay_ms(), old(self).relay()),
            final(self).delay_ms() == old(self).delay_ms(),
            final(self).relay() == old(self).relay(),
    {
        let (next, action) = match (self.state, event) {
            (ConnectionState::Disconnected, LinkEvent::NotFound) => (
                ConnectionState::Disconnected,
                LinkAction::Retry { delay_ms: self.delay_ms },
            ),
            (ConnectionState::Disconnected, LinkEvent::OpenFailed) => (
                ConnectionState::Disconnected,
                LinkAction::Retry { delay_ms: self.delay_ms },
            ),
            (ConnectionState::Disconnected, LinkEvent::Opened) => (
                ConnectionState::Connected,
                LinkAction::Attach { reader: self.relay },
            ),
            (ConnectionState::Connected, LinkEvent::IoFailed) => (
                ConnectionState::Disconnected,
                LinkAction::Detach { delay_ms: self.delay_ms },
            ),
            _ => (self.state, LinkAction::Ignore),
        };
        self.state = next;
        action
    }
}

/// A device that is never found is retried for ever: every event gives a
/// retry after the configured delay, the connector stays disconnected, and
/// no notification is sent.
pub proof fn lemma_unmatched_device_retries_forever(events: Seq<LinkEvent>, delay_ms: u64, relay: bool)
    requires
        forall|i: int| 0 <= i < events.len() ==> events[i] == LinkEvent::NotFound,
    ensures
        ({
            let (last, actions) = link_run(ConnectionState::Disconnected, events, delay_ms, relay);
            &&& last == ConnectionState::Disconnected
            &&& actions.len() == events.len()
            &&& forall|i: int| 0 <= i < actions.len() ==> actions[i] == LinkAction::Retry { delay_ms }
            &&& forall|i: int| 0 <= i < actions.len() ==> notification(#[trigger] actions[i]) is None
        }),
    decreases events.len(),
{
    if events.len() > 0 {
        let rest = events.subrange(1, events.len() as int);
        assert forall|i: int| 0 <= i < rest.len() implies rest[i] == LinkEvent::NotFound by {
            assert(rest[i] == events[i + 1]);
        }
        lemma_unmatched_device_retries_forever(rest, delay_ms, relay);
        let (last, actions) = link_run(ConnectionState::Disconnected, events, delay_ms, relay);
        let (_, tail) = link_run(ConnectionState::Disconnected, rest, delay_ms, relay);
        assert forall|i: int| 0 <= i < actions.len() implies actions[i] == LinkAction::Retry { delay_ms } by {
            if i > 0 {
                assert(actions[i] == tail[i - 1]);
            }
        }
    }
}

/// The notifications that a series of actions sends, in order.
pub open spec fn notifications(actions: Seq<LinkAction>) -> Seq<bool>
    decreases actions.len(),
{
    if actions.len() == 0 {
        Seq::empty()
    } else {
        let rest = notifications(actions.subrange(1, actions.len() as int));
        match notification(actions[0]) {
            Some(b) => seq![b] + rest,
            None => rest,
        }
    }
}

/// Whether `s` alternates between `true` and `false`, starting with `first`.
pub open spec fn alternates(s: Seq<bool>, first: bool) -> bool {
    forall|i: int| 0 <= i < s.len() ==> #[trigger] s[i] == (if i % 2 == 0 { first } else { !first })
}

/// Whatever the events, a connector's notifications alternate: a connect is
/// reported once per transition to connected, and a disconnect once per
/// transition back; from a disconnected start, the first one is a connect.
pub proof fn lemma_notifications_alternate(
    state: ConnectionState,
    events: Seq<LinkEvent>,
    delay_ms: u64,
    relay: bool,
)
    ensures
        alternates(
            notifications(link_run(state, events, delay_ms, relay).1),
            state == ConnectionState::Disconnected,
        ),
    decreases events.len(),
{
    if events.len() > 0 {
        let rest = events.subrange(1, events.len() as int);
        let (next, action) = link_step(state, events[0], delay_ms, relay);
        lemma_notifications_alternate(next, rest, delay_ms, relay);
        let actions = link_run(state, events, delay_ms, relay).1;
        let tail = link_run(next, rest, delay_ms, relay).1;
        assert(actions.subrange(1, actions.len() as int) =~= tail);
        let first = state == ConnectionState::Disconnected;
        let ns = notifications(actions);
        let nt = notifications(tail);
        match notification(action) {
            Some(b) => {
                assert(ns =~= seq![b] + nt);
                assert(b == first);
                assert((next == ConnectionState::Disconnected) == !first);
                assert forall|i: int| 0 <= i < ns.len() implies #[trigger] ns[i] == (if i % 2 == 0 { first } else { !first }) by {
                    if i > 0 {
                        assert(ns[i] == nt[i - 1]);
                        assert((i - 1) % 2 == 0 <==> i % 2 != 0);
                    }
                }
            },
            None => {
                assert(ns =~= nt);
                assert(next == state);
            },
        }
    }
}

} // verus!
