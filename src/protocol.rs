use vstd::prelude::*;

use vstd::utf8::encode_utf8;

use crate::data_type::{DataType, LAYOUT_TAG, RELAY_FROM_DEVICE_TAG, RELAY_TO_DEVICE_TAG, TIME_TAG, VOLUME_TAG};

verus! {

/// Report id that leads every outbound HID report.
pub const REPORT_ID: u8 = 0;

/// Bytes of packet carried by one outbound report.
pub const PAYLOAD_LEN: usize = 32;

/// Size of one outbound report: the report id, then the payload.
pub const REPORT_LEN: usize = 33;

/// Size of one inbound report read from the device.
pub const INBOUND_LEN: usize = 32;

/// Longest text, in bytes, that a media packet carries.
pub const MEDIA_TEXT_MAX: usize = 30;

/// `p` cut down to at most `n` elements.
pub open spec fn truncated(p: Seq<u8>, n: nat) -> Seq<u8> {
    if p.len() > n {
        p.subrange(0, n as int)
    } else {
        p
    }
}

/// `p` followed by zero bytes up to length `n`; `p` itself when it is
/// already that long.
pub open spec fn zero_padded(p: Seq<u8>, n: nat) -> Seq<u8> {
    if p.len() >= n {
        p
    } else {
        p + Seq::new((n - p.len()) as nat, |i: int| 0u8)
    }
}

/// The outbound report for packet `p`: the packet is cut to the payload size,
/// the report id goes in front, and zeros fill the rest of the report.
pub open spec fn framed(p: Seq<u8>) -> Seq<u8> {
    seq![REPORT_ID] + zero_padded(truncated(p, PAYLOAD_LEN as nat), PAYLOAD_LEN as nat)
}

/// Whether an inbound read of `read_len` bytes into `report` is relay traffic.
pub open spec fn is_relay_report(report: Seq<u8>, read_len: int) -> bool {
    read_len > 0 && report.len() > 0 && report[0] == RELAY_FROM_DEVICE_TAG
}

/// The host-to-device packet that relays device packet `p`, if `p` is relay
/// traffic: the tag is rewritten, the payload kept.
pub open spec fn relayed(p: Seq<u8>) -> Option<Seq<u8>> {
    if p.len() > 0 && p[0] == RELAY_FROM_DEVICE_TAG {
        Some(p.update(0, RELAY_TO_DEVICE_TAG))
    } else {
        None
    }
}

/// A text packet: tag, byte length, then the UTF-8 bytes cut to
/// `MEDIA_TEXT_MAX`.
pub open spec fn text_packet_of(tag: u8, text: Seq<u8>) -> Seq<u8> {
    let body = truncated(text, MEDIA_TEXT_MAX as nat);
    seq![tag, body.len() as u8] + body
}

/// Copies a byte slice into a new vector.
pub fn copy_bytes(s: &[u8]) -> (r: Vec<u8>)
    ensures
        r@ == s@,
{
    let mut r: Vec<u8> = Vec::with_capacity(s.len());
    let mut i: usize = 0;
    while i < s.len()
        invariant
            0 <= i <= s@.len(),
            r@ == s@.subrange(0, i as int),
        decreases s@.len() - i,
    {
        r.push(s[i]);
        i += 1;
        proof {
            assert(r@ =~= s@.subrange(0, i as int));
        }
    }
    proof {
        assert(r@ =~= s@);
    }
    r
}

/// Whether two byte sequences are equal.
pub fn same_bytes(a: &[u8], b: &[u8]) -> (r: bool)
    ensures
        r == (a@ == b@),
{
    if a.len() != b.len() {
        return false;
    }
    let mut i: usize = 0;
    while i < a.len()
        invariant
            a@.len() == b@.len(),
            0 <= i <= a@.len(),
            forall|j: int| 0 <= j < i ==> a@[j] == b@[j],
        decreases a@.len() - i,
    {
        if a[i] != b[i] {
            return false;
        }
        i += 1;
    }
    proof {
        assert(a@ =~= b@);
    }
    true
}

/// Frames a packet as one outbound HID report.
pub fn frame_report(packet: &[u8]) -> (r: Vec<u8>)
    ensures
        r@ == framed(packet@),
        r@.len() == REPORT_LEN,
        r@[0] == REPORT_ID,
        packet@.len() >= PAYLOAD_LEN ==> r@.subrange(1, REPORT_LEN as int) == packet@.subrange(0, PAYLOAD_LEN as int),
        packet@.len() < PAYLOAD_LEN ==> r@.subrange(1, packet@.len() as int + 1) == packet@,
        forall|i: int| packet@.len() + 1 <= i < REPORT_LEN ==> r@[i] == 0,
{
    let mut r: Vec<u8> = Vec::with_capacity(REPORT_LEN);
    r.push(REPORT_ID);
    let mut i: usize = 0;
    while i < PAYLOAD_LEN
        invariant
            0 <= i <= PAYLOAD_LEN,
            r@.len() == i + 1,
            r@[0] == REPORT_ID,
            forall|k: int| 1 <= k <= i ==> r@[k] == if k - 1 < packet@.len() { packet@[k - 1] } else { 0u8 },
        decreases PAYLOAD_LEN - i,
    {
        let b: u8 = if i < packet.len() { packet[i] } else { 0 };
        r.push(b);
        i += 1;
    }
    proof {
        let body = truncated(packet@, PAYLOAD_LEN as nat);
        assert(r@ =~= framed(packet@)) by {
            assert forall|j: int| 0 <= j < REPORT_LEN implies r@[j] == framed(packet@)[j] by {
                if j > 0 {
                    if j - 1 < body.len() {
                        assert(framed(packet@)[j] == body[j - 1]);
                    } else {
                        assert(framed(packet@)[j] == 0u8);
                    }
                }
            }
        }
        if packet@.len() >= PAYLOAD_LEN {
            assert(r@.subrange(1, REPORT_LEN as int) =~= packet@.subrange(0, PAYLOAD_LEN as int)) by {
                assert forall|j: int| 0 <= j < PAYLOAD_LEN implies r@.subrange(1, REPORT_LEN as int)[j] == packet@[j] by {
                    assert(r@[j + 1] == packet@[(j + 1) - 1]);
                }
            }
        } else {
            assert(r@.subrange(1, packet@.len() as int + 1) =~= packet@) by {
                assert forall|j: int| 0 <= j < packet@.len() implies r@.subrange(1, packet@.len() as int + 1)[j] == packet@[j] by {
                    assert(r@[j + 1] == packet@[(j + 1) - 1]);
                }
            }
        }
        assert forall|i: int| packet@.len() + 1 <= i < REPORT_LEN implies r@[i] == 0 by {
            assert(r@[i] == 0u8);
        }
    }
    r
}

/// The relay payload of an inbound read, if it is one: a read that returned
/// data and whose first byte is the device-to-host relay tag is forwarded
/// whole; every other read is ignored.
pub fn relay_report(report: &[u8], read_len: usize) -> (r: Option<Vec<u8>>)
    ensures
        r is Some <==> is_relay_report(report@, read_len as int),
        r matches Some(v) ==> v@ == report@,
{
    if read_len > 0 && report.len() > 0 && report[0] == RELAY_FROM_DEVICE_TAG {
        Some(copy_bytes(report))
    } else {
        None
    }
}

/// Rewrites a device-to-host relay packet into the host-to-device packet
/// that carries the same payload; any other packet gives `None`.
pub fn relay_to_device(packet: &[u8]) -> (r: Option<Vec<u8>>)
    ensures
        r matches Some(v) ==> relayed(packet@) == Some(v@),
        r is None ==> relayed(packet@) is None,
{
    if packet.len() > 0 && packet[0] == RELAY_FROM_DEVICE_TAG {
        let mut v = copy_bytes(packet);
        v.set(0, RELAY_TO_DEVICE_TAG);
        Some(v)
    } else {
        None
    }
}

/// The clock packet: hour, then minute.
pub fn time_packet(hour: u8, minute: u8) -> (r: Vec<u8>)
    ensures
        r@ == seq![TIME_TAG, hour, minute],
{
    vec![DataType::Time.tag(), hour, minute]
}

/// The volume packet, a percentage.
pub fn volume_packet(percent: u8) -> (r: Vec<u8>)
    ensures
        r@ == seq![VOLUME_TAG, percent],
{
    vec![DataType::Volume.tag(), percent]
}

/// The layout packet: the index of the layout in the configured list.
pub fn layout_packet(index: u8) -> (r: Vec<u8>)
    ensures
        r@ == seq![LAYOUT_TAG, index],
{
    vec![DataType::Layout.tag(), index]
}

/// A text packet (artist or title) for the UTF-8 bytes of a text: tag,
/// length byte, then at most `MEDIA_TEXT_MAX` of the bytes.
pub fn text_packet_bytes(kind: DataType, bytes: &[u8]) -> (r: Vec<u8>)
    ensures
        r@ == text_packet_of(kind.spec_tag(), bytes@),
{
    let n: usize = if bytes.len() > MEDIA_TEXT_MAX { MEDIA_TEXT_MAX } else { bytes.len() };
    let mut r: Vec<u8> = Vec::with_capacity(n + 2);
    r.push(kind.tag());
    r.push(n as u8);
    let mut i: usize = 0;
    while i < n
        invariant
            n <= MEDIA_TEXT_MAX,
            n <= bytes@.len(),
            n == truncated(bytes@, MEDIA_TEXT_MAX as nat).len(),
            0 <= i <= n,
            r@ == seq![kind.spec_tag(), n as u8] + bytes@.subrange(0, i as int),
        decreases n - i,
    {
        r.push(bytes[i]);
        i += 1;
        proof {
            assert(r@ =~= seq![kind.spec_tag(), n as u8] + bytes@.subrange(0, i as int));
        }
    }
    proof {
        assert(bytes@.subrange(0, n as int) =~= truncated(bytes@, MEDIA_TEXT_MAX as nat));
    }
    r
}

/// A text packet (artist or title): tag, length byte, then at most
/// `MEDIA_TEXT_MAX` bytes of the text's UTF-8 encoding.
pub fn text_packet(kind: DataType, text: &str) -> (r: Vec<u8>)
    ensures
        r@ == text_packet_of(kind.spec_tag(), encode_utf8(text@)),
{
    text_packet_bytes(kind, text.as_bytes())
}

} // verus!
