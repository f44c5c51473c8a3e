use vstd::prelude::*;
use vstd::utf8::encode_utf8;

use crate::data_type::LAYOUT_TAG;
use crate::protocol::{layout_packet, same_bytes};
use crate::providers::feed::{bytes_of, feed_poll, feed_start, feed_stop, packet_views, packets, sent, Feed, FeedState};
use crate::providers::Provider;

verus! {

/// The configured layout names, as UTF-8 bytes.
pub open spec fn layout_names(layouts: Seq<String>) -> Seq<Seq<u8>> {
    layouts.map_values(|s: String| encode_utf8(s@))
}

/// `i` is the first position of `name` in `names`.
pub open spec fn is_first_position(names: Seq<Seq<u8>>, name: Seq<u8>, i: int) -> bool {
    &&& 0 <= i < names.len()
    &&& names[i] == name
    &&& forall|j: int| 0 <= j < i ==> names[j] != name
}

/// The first position of `name` in `names`, if it occurs.
pub open spec fn position(names: Seq<Seq<u8>>, name: Seq<u8>) -> Option<int> {
    if exists|i: int| is_first_position(names, name, i) {
        Some(choose|i: int| is_first_position(names, name, i))
    } else {
        None
    }
}

/// The packet that a layout name stands for: its index in the configured
/// list. A name that is not in the list, or whose index does not fit in a
/// byte, is no value.
pub open spec fn layout_reading(names: Seq<Seq<u8>>, name: Option<Seq<u8>>) -> Option<Seq<u8>> {
    match name {
        Some(n) => match position(names, n) {
            Some(i) => if i < 256 {
                Some(seq![LAYOUT_TAG, i as u8])
            } else {
                None
            },
            None => None,
        },
        None => None,
    }
}

proof fn lemma_first_position_unique(names: Seq<Seq<u8>>, name: Seq<u8>, i: int)
    requires
        is_first_position(names, name, i),
    ensures
        position(names, name) == Some(i),
{
    let j = choose|j: int| is_first_position(names, name, j);
    assert(is_first_position(names, name, j));
    if j < i {
        assert(names[j] != name);
    } else if i < j {
        assert(names[i] != name);
    }
}

/// Index of the first configured layout whose name is `name`, in UTF-8.
pub fn layout_index(layouts: &Vec<String>, name: &[u8]) -> (r: Option<usize>)
    ensures
        r matches Some(i) ==> position(layout_names(layouts@), name@) == Some(i as int),
        r is None ==> position(layout_names(layouts@), name@) is None,
{
    let ghost names = layout_names(layouts@);
    let mut i: usize = 0;
    while i < layouts.len()
        invariant
            names == layout_names(layouts@),
            0 <= i <= layouts@.len(),
            forall|j: int| 0 <= j < i ==> names[j] != name@,
        decreases layouts@.len() - i,
    {
        let candidate = layouts[i].as_str().as_bytes();
        assert(candidate@ == names[i as int]);
        if same_bytes(candidate, name) {
            proof {
                lemma_first_position_unique(names, name@, i as int);
            }
            return Some(i);
        }
        i += 1;
    }
    proof {
        if exists|k: int| is_first_position(names, name@, k) {
            let k = choose|k: int| is_first_position(names, name@, k);
            assert(names[k] != name@);
        }
    }
    None
}

/// `+`, between the fields of a symbols string.
pub const PLUS: u8 = 0x2B;

/// `:`, before a group number in a symbols field.
pub const COLON: u8 = 0x3A;

/// `(`, before a variant in a symbols field.
pub const PAREN: u8 = 0x28;

/// The `k`-th field of `s`, fields being separated by `+`.
pub open spec fn plus_field(s: Seq<u8>, k: nat) -> Seq<u8>
    decreases s.len(),
{
    if s.len() == 0 {
        Seq::empty()
    } else if s[0] == PLUS {
        if k == 0 {
            Seq::empty()
        } else {
            plus_field(s.subrange(1, s.len() as int), (k - 1) as nat)
        }
    } else if k == 0 {
        seq![s[0]] + plus_field(s.subrange(1, s.len() as int), 0)
    } else {
        plus_field(s.subrange(1, s.len() as int), k)
    }
}

/// `s` up to its first `:` or `(`.
pub open spec fn before_variant(s: Seq<u8>) -> Seq<u8>
    decreases s.len(),
{
    if s.len() == 0 || s[0] == COLON || s[0] == PAREN {
        Seq::empty()
    } else {
        seq![s[0]] + before_variant(s.subrange(1, s.len() as int))
    }
}

/// The layout name of keyboard group `group` in an X keyboard symbols
/// string such as `pc+us+ru:2+inet(evdev)`: the field after the group's
/// position (the first field names the model), without its `:` or `(`
/// suffix. A group beyond the list gives an empty name.
pub open spec fn layout_name_of(symbols: Seq<u8>, group: u8) -> Seq<u8> {
    before_variant(plus_field(symbols, (group + 1) as nat))
}

/// The layout name of a keyboard group, read from the symbols string.
pub fn layout_name(symbols: &str, group: u8) -> (r: Vec<u8>)
    ensures
        r@ == layout_name_of(encode_utf8(symbols@), group),
{
    let s = symbols.as_bytes();
    let ghost n = s@.len();
    let mut k: usize = group as usize + 1;
    let mut i: usize = 0;
    // The bytes of the field, up to its end or to its variant suffix.
    let mut out: Vec<u8> = Vec::new();
    let mut cut = false;
    proof {
        assert(s@.subrange(0, n as int) =~= s@);
        assert(out@ + before_variant(plus_field(s@, k as nat)) =~= before_variant(plus_field(s@, k as nat)));
    }
    while i < s.len()
        invariant
            s@ == encode_utf8(symbols@),
            n == s@.len(),
            0 <= i <= n,
            k <= group as usize + 1,
            cut ==> k == 0,
            out@.len() > 0 ==> k == 0,
            before_variant(plus_field(s@, (group + 1) as nat)) == if cut {
                out@
            } else {
                out@ + before_variant(plus_field(s@.subrange(i as int, n as int), k as nat))
            },
        decreases n - i,
    {
        let ghost rest = s@.subrange(i as int, n as int);
        let ghost tail = s@.subrange(i + 1, n as int);
        assert(rest.subrange(1, rest.len() as int) =~= tail);
        let b = s[i];
        assert(rest[0] == b);
        if b == PLUS {
            if k == 0 {
                proof {
                    assert(plus_field(rest, 0) == Seq::<u8>::empty());
                    assert(before_variant(Seq::<u8>::empty()) == Seq::<u8>::empty());
                    assert(out@ + Seq::<u8>::empty() =~= out@);
                }
                return out;
            }
            k = k - 1;
        } else if k == 0 {
            if !cut {
                let ghost field = plus_field(rest, 0);
                assert(field == seq![b] + plus_field(tail, 0));
                if b == COLON || b == PAREN {
                    assert(before_variant(field) == Seq::<u8>::empty());
                    proof {
                        assert(out@ + Seq::<u8>::empty() =~= out@);
                    }
                    cut = true;
                } else {
                    assert(field.subrange(1, field.len() as int) =~= plus_field(tail, 0));
                    assert(before_variant(field) == seq![b] + before_variant(plus_field(tail, 0)));
                    let ghost old_out = out@;
                    out.push(b);
                    proof {
                        assert(old_out + (seq![b] + before_variant(plus_field(tail, 0))) =~= out@ + before_variant(
                            plus_field(tail, 0),
                        ));
                    }
                }
            }
        }
        i += 1;
    }
    proof {
        if !cut {
            assert(s@.subrange(n as int, n as int) =~= Seq::<u8>::empty());
            assert(out@ + Seq::<u8>::empty() =~= out@);
        }
    }
    out
}

/// One poll of the layout provider on an optional layout name: the new state
/// and the packets sent.
pub open spec fn layout_poll(s: FeedState, names: Seq<Seq<u8>>, name: Option<Seq<u8>>) -> (FeedState, Seq<Seq<u8>>) {
    let (n, o) = feed_poll(s, layout_reading(names, name));
    (n, sent(o))
}

/// Sends the active keyboard layout, as its index in the configured list,
/// whenever it changes; a layout that is not in the list is not sent.
pub struct LayoutProvider {
    feed: Feed,
    layouts: Vec<String>,
}

impl View for LayoutProvider {
    type V = (FeedState, Seq<Seq<u8>>);

    closed spec fn view(&self) -> (FeedState, Seq<Seq<u8>>) {
        (self.feed@, layout_names(self.layouts@))
    }
}

impl LayoutProvider {
    /// A stopped provider for the configured layout names, in order.
    pub fn new(layouts: Vec<String>) -> (r: LayoutProvider)
        ensures
            r@ == (FeedState { started: false, last: None }, layout_names(layouts@)),
            r.wf(),
    {
        LayoutProvider { feed: Feed::new(), layouts }
    }
}

impl Provider for LayoutProvider {
    /// The UTF-8 name of the active layout; `None` when it could not be read.
    type Reading = Option<Vec<u8>>;

    open spec fn wf(&self) -> bool {
        true
    }

    open spec fn started(&self) -> bool {
        self@.0.started
    }

    fn start(&mut self)
        ensures
            final(self)@ == (feed_start(old(self)@.0), old(self)@.1),
    {
        self.feed.start();
    }

    fn stop(&mut self)
        ensures
            final(self)@ == (feed_stop(old(self)@.0), old(self)@.1),
    {
        self.feed.stop();
    }

    fn poll(&mut self, observed: Option<Vec<u8>>) -> (out: Vec<Vec<u8>>)
        ensures
            final(self)@.1 == old(self)@.1,
            (final(self)@.0, packet_views(out)) == layout_poll(old(self)@.0, old(self)@.1, bytes_of(observed)),
    {
        let packet = match &observed {
            Some(name) => match layout_index(&self.layouts, name.as_slice()) {
                Some(i) => if i < 256 {
                    Some(layout_packet(i as u8))
                } else {
                    None
                },
                None => None,
            },
            None => None,
        };
        let o = self.feed.poll(packet);
        packets(o)
    }
}

} // verus!
