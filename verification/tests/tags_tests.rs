use chatbix::tags::{
    bot, clean_client_tags, encode_show_value, generated, logged_in, no_notif, set_logged_in,
    show_value, CLIENT_TAG_MASK,
};

#[test]
fn show_value_round_trip_important() {
    // A display hint of 9 encodes into bits 4 to 7 and decodes back
    // exactly, with every other bit zero.
    let encoded = encode_show_value(9);
    assert_eq!(encoded, 0b1001_0000);
    assert_eq!(show_value(encoded), 9);
    assert!(!logged_in(encoded));
    assert!(!generated(encoded));
    assert!(!bot(encoded));
    assert!(!no_notif(encoded));
}

#[test]
fn show_value_round_trip_all_assigned_codes() {
    for v in [0, 1, 2, 3, 4, 9, 10, 11, 12] {
        assert_eq!(show_value(encode_show_value(v)), v);
    }
}

#[test]
fn show_value_reserved_codes_read_as_no_change() {
    for v in [5, 6, 7, 8, 13, 14, 15] {
        assert_eq!(show_value(encode_show_value(v)), 0);
    }
}

#[test]
fn client_mask_clears_logged_in_and_reserved_bits() {
    assert_eq!(CLIENT_TAG_MASK, 0xfe);
    // All ones: bit 0 and every bit above bit 7 must go.
    assert_eq!(clean_client_tags(-1), 0xfe);
    // Bit 0 alone is dropped entirely.
    assert_eq!(clean_client_tags(1), 0);
    // Bits 8 and 9 are reserved and masked to zero.
    assert_eq!(clean_client_tags(256), 0);
    assert_eq!(clean_client_tags(512), 0);
    // Bit 7, the top of the display hint, is client-owned and kept.
    assert_eq!(clean_client_tags(128), 128);
    // Client-owned bits pass through unchanged.
    assert_eq!(clean_client_tags(0b1010), 0b1010);
    assert_eq!(clean_client_tags(0b1011), 0b1010);
}

#[test]
fn logged_in_bit_is_set_only_by_the_server() {
    let cleaned = clean_client_tags(0xff);
    assert!(!logged_in(cleaned));
    let marked = set_logged_in(cleaned);
    assert!(logged_in(marked));
    assert_eq!(marked & CLIENT_TAG_MASK, cleaned);
}

#[test]
fn flag_bits_read_back() {
    assert!(generated(0b0010));
    assert!(bot(0b0100));
    assert!(no_notif(0b1000));
    assert!(!generated(0b1101));
    assert!(!bot(0b1011));
    assert!(!no_notif(0b0111));
}
