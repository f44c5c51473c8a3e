use vstd::prelude::*;
use vstd::utf8::encode_utf8;

use std::borrow::ToOwned;

verus! {

/// Product id of the keyboard in a freshly written configuration.
pub const DEFAULT_PRODUCT_ID: u16 = 0x0844;

/// Pause between discovery attempts when the configuration names none.
pub const DEFAULT_RECONNECT_DELAY_MS: u64 = 5000;

/// One configured device: the filters it is found by in the device list.
pub struct Device {
    pub name: Option<String>,
    pub product_id: u16,
    pub usage: Option<u16>,
    pub usage_page: Option<u16>,
}

/// The configuration, fixed for the life of the process.
pub struct Config {
    pub devices: Vec<Device>,
    /// Layout names in order; a layout is sent as its index here.
    pub layouts: Vec<String>,
    /// Milliseconds between discovery attempts.
    pub reconnect_delay: Option<u64>,
}

/// The configuration used when none exists yet: one device with the default
/// product id and default filters, one layout "en", the default delay.
pub open spec fn is_default_config(c: Config) -> bool {
    &&& c.devices@.len() == 1
    &&& c.devices@[0].name is None
    &&& c.devices@[0].product_id == DEFAULT_PRODUCT_ID
    &&& c.devices@[0].usage is None
    &&& c.devices@[0].usage_page is None
    &&& c.layouts@.len() == 1
    &&& c.layouts@[0]@ == seq!['e', 'n']
    &&& c.reconnect_delay is None
}

impl Config {
    /// The configuration written out when no file exists.
    pub fn default_config() -> (r: Config)
        ensures
            is_default_config(r),
    {
        let device = Device { name: None, product_id: DEFAULT_PRODUCT_ID, usage: None, usage_page: None };
        let layout = "en".to_owned();
        proof {
            reveal_strlit("en");
            assert(layout@ =~= seq!['e', 'n']);
        }
        Config { devices: vec![device], layouts: vec![layout], reconnect_delay: None }
    }

    /// Milliseconds between discovery attempts.
    pub fn reconnect_delay_ms(&self) -> (r: u64)
        ensures
            r == match self.reconnect_delay {
                Some(d) => d,
                None => DEFAULT_RECONNECT_DELAY_MS,
            },
    {
        match self.reconnect_delay {
            Some(d) => d,
            None => DEFAULT_RECONNECT_DELAY_MS,
        }
    }
}

/// The configuration in force: the one read from the configuration file if
/// there was one, else the default configuration.
pub fn get_config(loaded: Option<Config>) -> (r: Config)
    ensures
        loaded matches Some(c) ==> r == c,
        loaded is None ==> is_default_config(r),
{
    match loaded {
        Some(c) => c,
        None => Config::default_config(),
    }
}

/// `s` without every leading `0x`.
pub open spec fn strip_hex_prefix(s: Seq<u8>) -> Seq<u8>
    decreases s.len(),
{
    if s.len() >= 2 && s[0] == 0x30 && s[1] == 0x78 {
        strip_hex_prefix(s.subrange(2, s.len() as int))
    } else {
        s
    }
}

/// The value of one hexadecimal digit, in either case.
pub open spec fn hex_digit_value(b: u8) -> Option<nat> {
    if 0x30 <= b <= 0x39 {
        Some((b - 0x30) as nat)
    } else if 0x61 <= b <= 0x66 {
        Some((b - 0x61 + 10) as nat)
    } else if 0x41 <= b <= 0x46 {
        Some((b - 0x41 + 10) as nat)
    } else {
        None
    }
}

pub open spec fn all_hex_digits(s: Seq<u8>) -> bool {
    forall|i: int| 0 <= i < s.len() ==> (#[trigger] hex_digit_value(s[i])) is Some
}

/// The number that a string of hexadecimal digits spells.
pub open spec fn hex_number(s: Seq<u8>) -> nat
    decreases s.len(),
{
    if s.len() == 0 {
        0
    } else {
        hex_number(s.subrange(0, s.len() - 1)) * 16 + match hex_digit_value(s[s.len() - 1]) {
            Some(v) => v,
            None => 0,
        }
    }
}

/// The product id that a configuration text spells: any leading `0x` is
/// dropped, then an optional `+` and one or more hexadecimal digits must
/// follow, with a value that fits in 16 bits.
pub open spec fn product_id_of(text: Seq<u8>) -> Option<u16> {
    let t = strip_hex_prefix(text);
    let d = if t.len() > 0 && t[0] == 0x2B {
        t.subrange(1, t.len() as int)
    } else {
        t
    };
    if d.len() > 0 && all_hex_digits(d) && hex_number(d) < 0x10000 {
        Some(hex_number(d) as u16)
    } else {
        None
    }
}

/// The lower-case hexadecimal digit for `v`.
pub open spec fn hex_char(v: nat) -> u8 {
    if v < 10 {
        (0x30 + v) as u8
    } else {
        (0x61 + v - 10) as u8
    }
}

/// How a product id is written in the configuration: `0x`, then four
/// lower-case hexadecimal digits.
pub open spec fn product_id_text(id: u16) -> Seq<u8> {
    seq![
        0x30u8,
        0x78u8,
        hex_char((id as nat / 4096) % 16),
        hex_char((id as nat / 256) % 16),
        hex_char((id as nat / 16) % 16),
        hex_char(id as nat % 16),
    ]
}

proof fn lemma_hex_prefix_at_most(d: Seq<u8>, j: int)
    requires
        all_hex_digits(d),
        0 <= j <= d.len(),
    ensures
        hex_number(d.subrange(0, j)) <= hex_number(d),
    decreases d.len(),
{
    if j < d.len() {
        let init = d.subrange(0, d.len() - 1);
        assert(all_hex_digits(init)) by {
            assert forall|i: int| 0 <= i < init.len() implies (#[trigger] hex_digit_value(init[i])) is Some by {
                assert(init[i] == d[i]);
            }
        }
        lemma_hex_prefix_at_most(init, j);
        assert(init.subrange(0, j) =~= d.subrange(0, j));
    } else {
        assert(d.subrange(0, j) =~= d);
    }
}

fn hex_digit(b: u8) -> (r: Option<u32>)
    ensures
        r matches Some(v) ==> hex_digit_value(b) == Some(v as nat),
        r is None ==> hex_digit_value(b) is None,
{
    if 0x30 <= b && b <= 0x39 {
        Some((b - 0x30) as u32)
    } else if 0x61 <= b && b <= 0x66 {
        Some((b - 0x61 + 10) as u32)
    } else if 0x41 <= b && b <= 0x46 {
        Some((b - 0x41 + 10) as u32)
    } else {
        None
    }
}

/// Reads a product id as the configuration writes it (`0x0844`).
pub fn parse_product_id(text: &str) -> (r: Option<u16>)
    ensures
        r == product_id_of(encode_utf8(text@)),
{
    let s = text.as_bytes();
    let ghost n = s@.len() as int;
    let mut start: usize = 0;
    assert(s@.subrange(0, n) =~= s@);
    while s.len() - start >= 2 && s[start] == 0x30 && s[start + 1] == 0x78
        invariant
            s@ == encode_utf8(text@),
            n == s@.len(),
            0 <= start <= n,
            strip_hex_prefix(s@) == strip_hex_prefix(s@.subrange(start as int, n)),
        decreases n - start,
    {
        let ghost rest = s@.subrange(start as int, n);
        assert(rest.subrange(2, rest.len() as int) =~= s@.subrange(start + 2, n));
        start += 2;
    }
    let ghost t = s@.subrange(start as int, n);
    assert(strip_hex_prefix(s@) == t);
    if start < s.len() && s[start] == 0x2B {
        start += 1;
        assert(t.subrange(1, t.len() as int) =~= s@.subrange(start as int, n));
    }
    let ghost d = s@.subrange(start as int, n);
    assert(product_id_of(s@) == if d.len() > 0 && all_hex_digits(d) && hex_number(d) < 0x10000 {
        Some(hex_number(d) as u16)
    } else {
        None
    });
    if start == s.len() {
        return None;
    }
    let mut value: u32 = 0;
    let mut i: usize = start;
    assert(d.subrange(0, 0) =~= Seq::<u8>::empty());
    while i < s.len()
        invariant
            s@ == encode_utf8(text@),
            n == s@.len(),
            d == s@.subrange(start as int, n),
            product_id_of(s@) == if all_hex_digits(d) && hex_number(d) < 0x10000 {
                Some(hex_number(d) as u16)
            } else {
                None
            },
            d.len() > 0,
            start <= i <= n,
            value < 0x10000,
            value == hex_number(d.subrange(0, i - start)),
            all_hex_digits(d.subrange(0, i - start)),
        decreases n - i,
    {
        let ghost k = i - start;
        let ghost pre = d.subrange(0, k + 1);
        assert(pre.subrange(0, k) =~= d.subrange(0, k));
        assert(pre[k] == s@[i as int]);
        let digit = match hex_digit(s[i]) {
            Some(v) => v,
            None => {
                assert(!all_hex_digits(d)) by {
                    assert(hex_digit_value(d[k]) is None);
                }
                return None;
            },
        };
        let next: u32 = value * 16 + digit;
        assert(all_hex_digits(pre)) by {
            assert forall|j: int| 0 <= j < pre.len() implies (#[trigger] hex_digit_value(pre[j])) is Some by {
                if j < k {
                    assert(pre[j] == d.subrange(0, k)[j]);
                }
            }
        }
        assert(next == hex_number(pre));
        if next >= 0x10000 {
            proof {
                if all_hex_digits(d) {
                    lemma_hex_prefix_at_most(d, k + 1);
                }
            }
            return None;
        }
        value = next;
        i += 1;
    }
    assert(d.subrange(0, i - start) =~= d);
    Some(value as u16)
}

fn hex_char_of(v: u16) -> (r: u8)
    requires
        v < 16,
    ensures
        r == hex_char(v as nat),
{
    if v < 10 {
        0x30 + v as u8
    } else {
        0x61 + (v - 10) as u8
    }
}

/// Writes a product id as the configuration holds it (`0x0844`).
pub fn format_product_id(id: u16) -> (r: Vec<u8>)
    ensures
        r@ == product_id_text(id),
{
    vec![
        0x30,
        0x78,
        hex_char_of((id / 4096) % 16),
        hex_char_of((id / 256) % 16),
        hex_char_of((id / 16) % 16),
        hex_char_of(id % 16),
    ]
}

proof fn lemma_hex_char_digit(v: nat)
    requires
        v < 16,
    ensures
        hex_digit_value(hex_char(v)) == Some(v),
        hex_char(v) != 0x78,
        hex_char(v) != 0x2B,
{
}

proof fn lemma_four_digits(id: u16)
    ensures
        (((id as nat / 4096) % 16 * 16 + (id as nat / 256) % 16) * 16 + (id as nat / 16) % 16) * 16 + id as nat % 16
            == id as nat,
{
    let x = id as u32;
    assert(((((x / 4096) % 16 * 16 + (x / 256) % 16) * 16 + (x / 16) % 16) * 16 + x % 16) == x) by (bit_vector)
        requires
            x < 65536,
    ;
}

/// A product id written out as the configuration holds it reads back as the
/// same id.
pub proof fn lemma_product_id_round_trip(id: u16)
    ensures
        product_id_of(product_id_text(id)) == Some(id),
{
    let text = product_id_text(id);
    let a = (id as nat / 4096) % 16;
    let b = (id as nat / 256) % 16;
    let c = (id as nat / 16) % 16;
    let e = id as nat % 16;
    lemma_hex_char_digit(a);
    lemma_hex_char_digit(b);
    lemma_hex_char_digit(c);
    lemma_hex_char_digit(e);
    let d = text.subrange(2, 6);
    assert(d =~= seq![hex_char(a), hex_char(b), hex_char(c), hex_char(e)]);
    assert(strip_hex_prefix(d) == d);
    assert(strip_hex_prefix(text) == d);
    assert(all_hex_digits(d));
    let s1 = seq![hex_char(a)];
    let s2 = seq![hex_char(a), hex_char(b)];
    let s3 = seq![hex_char(a), hex_char(b), hex_char(c)];
    assert(s1.subrange(0, 0) =~= Seq::<u8>::empty());
    assert(s2.subrange(0, 1) =~= s1);
    assert(s3.subrange(0, 2) =~= s2);
    assert(d.subrange(0, 3) =~= s3);
    assert(hex_number(Seq::<u8>::empty()) == 0);
    assert(s1[0] == hex_char(a));
    assert(hex_number(s1) == a);
    assert(hex_number(s2) == a * 16 + b);
    assert(hex_number(s3) == (a * 16 + b) * 16 + c);
    assert(hex_number(d) == ((a * 16 + b) * 16 + c) * 16 + e);
    lemma_four_digits(id);
}

} // verus!
