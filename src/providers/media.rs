use vstd::prelude::*;
use vstd::utf8::encode_utf8;

use crate::data_type::DataType;
use crate::protocol::{copy_bytes, text_packet_bytes, text_packet_of};
use crate::providers::feed::{bytes_of, feed_poll, feed_start, feed_stop, packet_views, packets, Feed, FeedState};
use crate::providers::Provider;

verus! {

/// What one media stream compares: the full UTF-8 text; an empty text is no
/// value.
pub open spec fn text_reading(text: Seq<char>) -> Option<Seq<u8>> {
    if text.len() == 0 {
        None
    } else {
        Some(encode_utf8(text))
    }
}

/// The packets for a text that a stream decided to send.
pub open spec fn text_sent(kind: DataType, o: Option<Seq<u8>>) -> Seq<Seq<u8>> {
    match o {
        Some(text) => seq![text_packet_of(kind.spec_tag(), text)],
        None => Seq::empty(),
    }
}

/// One poll of the media provider on an optional (artist, title) reading:
/// the new states of the artist and title streams, and the packets sent,
/// artist first. Each stream holds the full text it sent last, so a
/// non-empty artist (or title) is sent exactly when its whole text differs
/// from the last one sent since the start, even where the packet cuts it.
pub open spec fn media_poll(s: (FeedState, FeedState), observed: Option<(Seq<char>, Seq<char>)>) -> (
    (FeedState, FeedState),
    Seq<Seq<u8>>,
) {
    match observed {
        Some((artist, title)) => {
            let (na, oa) = feed_poll(s.0, text_reading(artist));
            let (nt, ot) = feed_poll(s.1, text_reading(title));
            ((na, nt), text_sent(DataType::MediaArtist, oa) + text_sent(DataType::MediaTitle, ot))
        },
        None => (s, Seq::empty()),
    }
}

/// Sends the artist and the title of what is playing, each whenever it
/// changes; an empty artist or title is not sent.
pub struct MediaProvider {
    artist: Feed,
    title: Feed,
}

impl View for MediaProvider {
    type V = (FeedState, FeedState);

    closed spec fn view(&self) -> (FeedState, FeedState) {
        (self.artist@, self.title@)
    }
}

fn text_if_any(text: &String) -> (r: Option<Vec<u8>>)
    ensures
        bytes_of(r) == text_reading(text@),
{
    if text.as_str().is_empty() {
        None
    } else {
        Some(copy_bytes(text.as_str().as_bytes()))
    }
}

fn text_packets(kind: DataType, o: Option<Vec<u8>>) -> (r: Vec<Vec<u8>>)
    ensures
        packet_views(r) == text_sent(kind, bytes_of(o)),
        r@.len() == text_sent(kind, bytes_of(o)).len(),
{
    match o {
        Some(text) => packets(Some(text_packet_bytes(kind, text.as_slice()))),
        None => packets(None),
    }
}

impl MediaProvider {
    /// A stopped provider.
    pub fn new() -> (r: MediaProvider)
        ensures
            r@ == (FeedState { started: false, last: None }, FeedState { started: false, last: None }),
            r.wf(),
    {
        MediaProvider { artist: Feed::new(), title: Feed::new() }
    }
}

impl Provider for MediaProvider {
    /// Artist and title; `None` when no player could be read.
    type Reading = Option<(String, String)>;

    /// Both streams are armed or disarmed together.
    open spec fn wf(&self) -> bool {
        self@.0.started == self@.1.started
    }

    open spec fn started(&self) -> bool {
        self@.0.started
    }

    fn start(&mut self)
        ensures
            final(self)@ == (feed_start(old(self)@.0), feed_start(old(self)@.1)),
    {
        self.artist.start();
        self.title.start();
    }

    fn stop(&mut self)
        ensures
            final(self)@ == (feed_stop(old(self)@.0), feed_stop(old(self)@.1)),
    {
        self.artist.stop();
        self.title.stop();
    }

    fn poll(&mut self, observed: Option<(String, String)>) -> (out: Vec<Vec<u8>>)
        ensures
            (final(self)@, packet_views(out)) == media_poll(
                old(self)@,
                match observed {
                    Some(p) => Some((p.0@, p.1@)),
                    None => None,
                },
            ),
    {
        match observed {
            Some((artist, title)) => {
                let a = self.artist.poll(text_if_any(&artist));
                let t = self.title.poll(text_if_any(&title));
                let mut out = text_packets(DataType::MediaArtist, a);
                let mut rest = text_packets(DataType::MediaTitle, t);
                let ghost first = packet_views(out);
                let ghost second = packet_views(rest);
                out.append(&mut rest);
                proof {
                    assert(packet_views(out) =~= first + second);
                }
                out
            },
            None => Vec::new(),
        }
    }
}

/// While the provider runs, a non-empty artist is sent exactly when its whole
/// UTF-8 text differs from the last artist sent since the start, and the
/// same holds of the title; the artist comes first.
pub proof fn lemma_media_sends_on_text_change(s: (FeedState, FeedState), artist: Seq<char>, title: Seq<char>)
    requires
        s.0.started,
        s.1.started,
    ensures
        ({
            let out = media_poll(s, Some((artist, title))).1;
            let send_artist = artist.len() > 0 && s.0.last != Some(encode_utf8(artist));
            let send_title = title.len() > 0 && s.1.last != Some(encode_utf8(title));
            &&& out.len() == (if send_artist { 1int } else { 0 }) + (if send_title { 1int } else { 0 })
            &&& send_artist ==> out[0] == text_packet_of(DataType::MediaArtist.spec_tag(), encode_utf8(artist))
            &&& send_title ==> out[out.len() - 1] == text_packet_of(DataType::MediaTitle.spec_tag(), encode_utf8(title))
        }),
{
}

} // verus!
