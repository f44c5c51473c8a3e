use qmk_hid_host::providers::layout::{layout_index, layout_name, LayoutProvider};
use qmk_hid_host::providers::media::MediaProvider;
use qmk_hid_host::providers::relay::RelayProvider;
use qmk_hid_host::providers::time::TimeProvider;
use qmk_hid_host::providers::volume::{volume_percent, VolumeProvider};
use qmk_hid_host::providers::Provider;

#[test]
fn repeated_readings_are_sent_once() {
    let mut p = VolumeProvider::new();
    p.start();
    let mut sent = Vec::new();
    for v in [1u8, 1, 2, 2, 3] {
        sent.extend(p.poll(Some(v)));
    }
    assert_eq!(sent, vec![vec![0xAB, 1], vec![0xAB, 2], vec![0xAB, 3]]);
}

#[test]
fn stopped_provider_sends_nothing() {
    let mut p = VolumeProvider::new();
    assert!(p.poll(Some(5)).is_empty());
    p.start();
    assert_eq!(p.poll(Some(5)), vec![vec![0xAB, 5]]);
    p.stop();
    assert!(p.poll(Some(6)).is_empty());
}

#[test]
fn failed_reading_is_skipped() {
    let mut p = VolumeProvider::new();
    p.start();
    assert!(p.poll(None).is_empty());
    assert_eq!(p.poll(Some(9)), vec![vec![0xAB, 9]]);
    assert!(p.poll(None).is_empty());
    assert!(p.poll(Some(9)).is_empty());
}

#[test]
fn restart_sends_the_current_value_again() {
    let mut p = TimeProvider::new();
    p.start();
    assert_eq!(p.poll((10, 30)), vec![vec![0xAA, 10, 30]]);
    assert!(p.poll((10, 30)).is_empty());
    p.stop();
    p.start();
    assert_eq!(p.poll((10, 30)), vec![vec![0xAA, 10, 30]]);
}

#[test]
fn clock_reading_is_a_valid_time_packet() {
    let mut p = TimeProvider::new();
    p.start();
    let out = p.poll_clock();
    assert_eq!(out.len(), 1);
    assert_eq!(out[0].len(), 3);
    assert_eq!(out[0][0], 0xAA);
    assert!(out[0][1] < 24);
    assert!(out[0][2] < 60);
}

#[test]
fn volume_percent_rounds_to_nearest() {
    assert_eq!(volume_percent(32768, 65536), Some(50));
    assert_eq!(volume_percent(65536, 65536), Some(100));
    assert_eq!(volume_percent(0, 65536), Some(0));
    assert_eq!(volume_percent(1, 200), Some(1));
    assert_eq!(volume_percent(1, 201), Some(0));
    assert_eq!(volume_percent(65536 * 3, 65536), Some(100));
    assert_eq!(volume_percent(65536 + 327, 65536), Some(100));
    assert_eq!(volume_percent(u32::MAX, 1), Some(100));
    assert_eq!(volume_percent(5, 0), None);
}

fn layouts() -> Vec<String> {
    vec!["en".to_string(), "ru".to_string(), "de".to_string()]
}

#[test]
fn layout_name_is_resolved_to_its_index() {
    assert_eq!(layout_index(&layouts(), b"ru"), Some(1));
    assert_eq!(layout_index(&layouts(), b"en"), Some(0));
    assert_eq!(layout_index(&layouts(), b"fr"), None);
    assert_eq!(layout_index(&vec!["a".to_string(), "a".to_string()], b"a"), Some(0));
}

#[test]
fn unknown_layout_is_dropped() {
    let mut p = LayoutProvider::new(layouts());
    p.start();
    assert_eq!(p.poll(Some(b"de".to_vec())), vec![vec![0xAC, 2]]);
    assert!(p.poll(Some(b"fr".to_vec())).is_empty());
    assert!(p.poll(Some(b"de".to_vec())).is_empty());
    assert_eq!(p.poll(Some(b"en".to_vec())), vec![vec![0xAC, 0]]);
}

#[test]
fn layout_names_from_symbols() {
    let symbols = "pc+us+ru:2+inet(evdev)";
    assert_eq!(layout_name(symbols, 0), b"us".to_vec());
    assert_eq!(layout_name(symbols, 1), b"ru".to_vec());
    assert_eq!(layout_name(symbols, 2), b"inet".to_vec());
    assert_eq!(layout_name(symbols, 3), Vec::<u8>::new());
    assert_eq!(layout_name("pc+de(nodeadkeys)", 0), b"de".to_vec());
    assert_eq!(layout_name("", 0), Vec::<u8>::new());
}

#[test]
fn media_streams_are_suppressed_independently() {
    let mut p = MediaProvider::new();
    p.start();
    let out = p.poll(Some(("Band".to_string(), "Song".to_string())));
    assert_eq!(out, vec![vec![0xAD, 4, b'B', b'a', b'n', b'd'], vec![0xAE, 4, b'S', b'o', b'n', b'g']]);
    let out = p.poll(Some(("Band".to_string(), "Next".to_string())));
    assert_eq!(out, vec![vec![0xAE, 4, b'N', b'e', b'x', b't']]);
    let out = p.poll(Some(("".to_string(), "".to_string())));
    assert!(out.is_empty());
    assert!(p.poll(None).is_empty());
    p.stop();
    assert!(p.poll(Some(("Other".to_string(), "Song".to_string()))).is_empty());
}

#[test]
fn relay_provider_forwards_while_started() {
    let mut p = RelayProvider::new();
    assert!(p.poll(vec![0xCC, 0x05, 0x06]).is_empty());
    p.start();
    assert_eq!(p.poll(vec![0xCC, 0x05, 0x06]), vec![vec![0xCD, 0x05, 0x06]]);
    assert_eq!(p.poll(vec![0xCC, 0x05, 0x06]), vec![vec![0xCD, 0x05, 0x06]]);
    assert!(p.poll(vec![0xAA, 1, 2]).is_empty());
    p.stop();
    assert!(p.poll(vec![0xCC, 0x05, 0x06]).is_empty());
}

#[test]
fn long_titles_that_differ_after_thirty_bytes_are_both_sent() {
    let shared = "A very long opening of the title";
    assert!(shared.len() >= 30);
    let first = format!("{} (part one)", shared);
    let second = format!("{} (part two)", shared);
    let mut p = MediaProvider::new();
    p.start();
    let out = p.poll(Some(("Band".to_string(), first.clone())));
    assert_eq!(out.len(), 2);
    assert_eq!(out[1][0], 0xAE);
    assert_eq!(out[1][1], 30);
    assert_eq!(&out[1][2..], &first.as_bytes()[..30]);
    let out = p.poll(Some(("Band".to_string(), second.clone())));
    assert_eq!(out.len(), 1);
    assert_eq!(out[0][0], 0xAE);
    assert_eq!(&out[0][2..], &second.as_bytes()[..30]);
    assert!(p.poll(Some(("Band".to_string(), second))).is_empty());
    assert_eq!(p.poll(Some(("Band".to_string(), first))).len(), 1);
}
