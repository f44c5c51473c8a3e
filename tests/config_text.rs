use qmk_hid_host::config::{format_product_id, parse_product_id};

#[test]
fn product_id_is_read_as_hex() {
    assert_eq!(parse_product_id("0x0844"), Some(0x0844));
    assert_eq!(parse_product_id("0844"), Some(0x0844));
    assert_eq!(parse_product_id("0xFFFF"), Some(0xFFFF));
    assert_eq!(parse_product_id("0xabCD"), Some(0xABCD));
    assert_eq!(parse_product_id("0x0x12"), Some(0x12));
    assert_eq!(parse_product_id("+1f"), Some(0x1F));
}

#[test]
fn bad_product_ids_are_rejected() {
    assert_eq!(parse_product_id(""), None);
    assert_eq!(parse_product_id("0x"), None);
    assert_eq!(parse_product_id("0x10000"), None);
    assert_eq!(parse_product_id("0xg1"), None);
    assert_eq!(parse_product_id("-1"), None);
    assert_eq!(parse_product_id("+"), None);
    assert_eq!(parse_product_id("0x 12"), None);
}

#[test]
fn product_id_is_written_as_four_digits() {
    assert_eq!(format_product_id(0x0844), b"0x0844".to_vec());
    assert_eq!(format_product_id(0xABCD), b"0xabcd".to_vec());
    assert_eq!(format_product_id(0), b"0x0000".to_vec());
}

#[test]
fn written_product_id_reads_back() {
    for id in [0u16, 1, 0x0844, 0x7fff, 0xff60, 0xffff] {
        let text = String::from_utf8(format_product_id(id)).unwrap();
        assert_eq!(parse_product_id(&text), Some(id));
    }
}
