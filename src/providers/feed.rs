use vstd::prelude::*;

use crate::protocol::same_bytes;

verus! {

/// Mathematical state of a feed: whether it is armed, and the value (a
/// packet, or a text) it sent last since it was armed.
pub struct FeedState {
    pub started: bool,
    pub last: Option<Seq<u8>>,
}

pub open spec fn feed_start(s: FeedState) -> FeedState {
    FeedState { started: true, last: None }
}

pub open spec fn feed_stop(s: FeedState) -> FeedState {
    FeedState { started: false, last: s.last }
}

/// One observation: an armed feed sends a packet that differs from the last
/// one it sent; a missing reading, a repeated one, or a disarmed feed sends
/// nothing.
pub open spec fn feed_poll(s: FeedState, observed: Option<Seq<u8>>) -> (FeedState, Option<Seq<u8>>) {
    match observed {
        Some(p) => if s.started && s.last != Some(p) {
            (FeedState { started: true, last: Some(p) }, Some(p))
        } else {
            (s, None)
        },
        None => (s, None),
    }
}

/// The packets that a feed sends over a series of observations.
pub open spec fn feed_run(s: FeedState, observed: Seq<Option<Seq<u8>>>) -> (FeedState, Seq<Seq<u8>>)
    decreases observed.len(),
{
    if observed.len() == 0 {
        (s, Seq::empty())
    } else {
        let (next, out) = feed_poll(s, observed[0]);
        let (last, rest) = feed_run(next, observed.subrange(1, observed.len() as int));
        match out {
            Some(p) => (last, seq![p] + rest),
            None => (last, rest),
        }
    }
}

/// The view of an optional packet.
pub open spec fn bytes_of(o: Option<Vec<u8>>) -> Option<Seq<u8>> {
    match o {
        Some(v) => Some(v@),
        None => None,
    }
}

/// The packets that an optional packet stands for.
pub open spec fn sent(o: Option<Seq<u8>>) -> Seq<Seq<u8>> {
    match o {
        Some(p) => seq![p],
        None => Seq::empty(),
    }
}

/// The views of a list of packets.
pub open spec fn packet_views(out: Vec<Vec<u8>>) -> Seq<Seq<u8>> {
    out@.map_values(|v: Vec<u8>| v@)
}

/// The optional packet as a list of packets.
pub fn packets(o: Option<Vec<u8>>) -> (r: Vec<Vec<u8>>)
    ensures
        packet_views(r) == sent(bytes_of(o)),
        r@.len() == sent(bytes_of(o)).len(),
{
    let mut r: Vec<Vec<u8>> = Vec::new();
    match o {
        Some(p) => {
            r.push(p);
        },
        None => {},
    }
    proof {
        assert(packet_views(r) =~= sent(bytes_of(o)));
    }
    r
}

/// Change suppression for one stream of values.
pub struct Feed {
    started: bool,
    last: Option<Vec<u8>>,
}

impl View for Feed {
    type V = FeedState;

    closed spec fn view(&self) -> FeedState {
        FeedState {
            started: self.started,
            last: match self.last {
                Some(v) => Some(v@),
                None => None,
            },
        }
    }
}

impl Feed {
    /// A disarmed feed that has sent nothing.
    pub fn new() -> (r: Feed)
        ensures
            r@ == (FeedState { started: false, last: None }),
    {
        Feed { started: false, last: None }
    }

    /// Whether the feed is armed.
    pub fn is_started(&self) -> (r: bool)
        ensures
            r == self@.started,
    {
        self.started
    }

    /// Arms the feed and forgets the last packet sent.
    pub fn start(&mut self)
        ensures
            final(self)@ == feed_start(old(self)@),
    {
        self.started = true;
        self.last = None;
    }

    /// Disarms the feed.
    pub fn stop(&mut self)
        ensures
            final(self)@ == feed_stop(old(self)@),
    {
        self.started = false;
    }

    /// Takes one observation and returns the packet to send, if any.
    pub fn poll(&mut self, observed: Option<Vec<u8>>) -> (r: Option<Vec<u8>>)
        ensures
            (final(self)@, bytes_of(r)) == feed_poll(old(self)@, bytes_of(observed)),
    {
        match observed {
            Some(p) => {
                if !self.started {
                    return None;
                }
                let repeated = match &self.last {
                    Some(last) => same_bytes(last.as_slice(), p.as_slice()),
                    None => false,
                };
                if repeated {
                    None
                } else {
                    let sent = copy_vec(&p);
                    self.last = Some(p);
                    Some(sent)
                }
            },
            None => None,
        }
    }
}

fn copy_vec(v: &Vec<u8>) -> (r: Vec<u8>)
    ensures
        r@ == v@,
{
    crate::protocol::copy_bytes(v.as_slice())
}

/// A feed never sends the same packet twice in a row, and sends every reading
/// that differs from the last one it sent.
pub proof fn lemma_send_on_change(s: FeedState, observed: Seq<u8>)
    requires
        s.started,
    ensures
        feed_poll(s, Some(observed)).1 is Some <==> s.last != Some(observed),
        feed_poll(s, Some(observed)).1 is Some ==> feed_poll(s, Some(observed)).1 == Some(observed),
{
}

/// Over any series of observations, no two packets that a feed sends one
/// after the other are equal, and the first differs from the last one sent
/// before.
pub proof fn lemma_no_repeats(s: FeedState, observed: Seq<Option<Seq<u8>>>)
    ensures
        ({
            let out = feed_run(s, observed).1;
            &&& forall|i: int| 0 <= i < out.len() - 1 ==> #[trigger] out[i] != out[i + 1]
            &&& s.last is Some && out.len() > 0 ==> out[0] != s.last->0
        }),
    decreases observed.len(),
{
    if observed.len() > 0 {
        let (next, o) = feed_poll(s, observed[0]);
        let rest_obs = observed.subrange(1, observed.len() as int);
        lemma_no_repeats(next, rest_obs);
        let (last, rest) = feed_run(next, rest_obs);
        let out = feed_run(s, observed).1;
        match o {
            Some(p) => {
                assert(out =~= seq![p] + rest);
                assert(next.last == Some(p));
                assert forall|i: int| 0 <= i < out.len() - 1 implies #[trigger] out[i] != out[i + 1] by {
                    if i > 0 {
                        assert(out[i] == rest[i - 1]);
                        assert(out[i + 1] == rest[i]);
                    }
                }
            },
            None => {
                assert(out =~= rest);
                assert(next == s);
            },
        }
    }
}

} // verus!
