use qmk_hid_host::data_type::DataType;
use qmk_hid_host::protocol::{frame_report, relay_report, relay_to_device, text_packet, time_packet, volume_packet, layout_packet};

#[test]
fn long_payload_is_cut_to_thirty_two_bytes() {
    let payload: Vec<u8> = (1..=40).collect();
    let report = frame_report(&payload);
    assert_eq!(report.len(), 33);
    assert_eq!(report[0], 0);
    assert_eq!(&report[1..], &payload[..32]);
}

#[test]
fn exactly_thirty_two_bytes_fill_the_report() {
    let payload: Vec<u8> = vec![7; 32];
    let report = frame_report(&payload);
    assert_eq!(report.len(), 33);
    assert_eq!(report[0], 0);
    assert_eq!(&report[1..], &payload[..]);
}

#[test]
fn short_payload_is_padded_with_zeros() {
    let report = frame_report(&[0xAA, 12, 34]);
    assert_eq!(report.len(), 33);
    assert_eq!(&report[..4], &[0, 0xAA, 12, 34]);
    assert!(report[4..].iter().all(|b| *b == 0));
}

#[test]
fn empty_payload_gives_a_zero_report() {
    let report = frame_report(&[]);
    assert_eq!(report, vec![0u8; 33]);
}

#[test]
fn relay_packet_is_retagged_with_payload_kept() {
    assert_eq!(relay_to_device(&[0xCC, 0x05, 0x06]), Some(vec![0xCD, 0x05, 0x06]));
}

#[test]
fn non_relay_packet_is_not_retagged() {
    assert_eq!(relay_to_device(&[0xAA, 0x05, 0x06]), None);
    assert_eq!(relay_to_device(&[]), None);
}

#[test]
fn only_relay_reads_are_forwarded() {
    let mut report = [0u8; 32];
    report[0] = 0xCC;
    report[1] = 9;
    assert_eq!(relay_report(&report, 32), Some(report.to_vec()));
    assert_eq!(relay_report(&report, 0), None);
    report[0] = 0xAB;
    assert_eq!(relay_report(&report, 32), None);
}

#[test]
fn tags_match_the_firmware() {
    assert_eq!(DataType::Time.tag(), 0xAA);
    assert_eq!(DataType::Volume.tag(), 0xAB);
    assert_eq!(DataType::Layout.tag(), 0xAC);
    assert_eq!(DataType::MediaArtist.tag(), 0xAD);
    assert_eq!(DataType::MediaTitle.tag(), 0xAE);
    assert_eq!(DataType::RelayFromDevice.tag(), 0xCC);
    assert_eq!(DataType::RelayToDevice.tag(), 0xCD);
}

#[test]
fn simple_packets() {
    assert_eq!(time_packet(13, 7), vec![0xAA, 13, 7]);
    assert_eq!(volume_packet(42), vec![0xAB, 42]);
    assert_eq!(layout_packet(1), vec![0xAC, 1]);
}

#[test]
fn text_packet_carries_length_and_bytes() {
    assert_eq!(text_packet(DataType::MediaArtist, "abc"), vec![0xAD, 3, b'a', b'b', b'c']);
    assert_eq!(text_packet(DataType::MediaTitle, ""), vec![0xAE, 0]);
}

#[test]
fn text_packet_cuts_long_text_to_thirty_bytes() {
    let text = "x".repeat(45);
    let packet = text_packet(DataType::MediaTitle, &text);
    assert_eq!(packet.len(), 32);
    assert_eq!(packet[0], 0xAE);
    assert_eq!(packet[1], 30);
    assert!(packet[2..].iter().all(|b| *b == b'x'));
}

#[test]
fn text_packet_counts_utf8_bytes() {
    let packet = text_packet(DataType::MediaArtist, "é");
    assert_eq!(packet, vec![0xAD, 2, 0xC3, 0xA9]);
}
