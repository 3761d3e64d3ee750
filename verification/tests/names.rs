//! Name-codec tests: label decoding, compression pointers, and the
//! guards that keep decompression from looping forever.

use rustdns::defs::ResponseCode;
use rustdns::name::{resolve, resolve_name, write_name};

#[test]
fn decode_plain_name() {
    let buf = [3, b'w', b'w', b'w', 7, b'e', b'x', b'a', b'm', b'p', b'l', b'e', 3, b'c', b'o',
        b'm', 0];
    let (labels, end) = resolve(&buf, 0).unwrap();
    assert_eq!(labels, vec!["www", "example", "com"]);
    assert_eq!(end, 17);
    let (name, _) = resolve_name(&buf, 0).unwrap();
    assert_eq!(name, "www.example.com");
}

#[test]
fn decode_name_with_backward_pointer() {
    // "example.com" at offset 0, then at offset 13 the name "www" plus
    // a pointer back to offset 0.
    let buf = [
        7, b'e', b'x', b'a', b'm', b'p', b'l', b'e', 3, b'c', b'o', b'm', 0, //
        3, b'w', b'w', b'w', 0xC0, 0x00,
    ];
    let (name, end) = resolve_name(&buf, 13).unwrap();
    assert_eq!(name, "www.example.com");
    assert_eq!(end, 19);
}

#[test]
fn forward_pointer_is_rejected() {
    // A pointer at offset 0 referencing offset 2, ahead of itself.
    let buf = [0xC0, 0x02, 3, b'c', b'o', b'm', 0];
    assert_eq!(resolve(&buf, 0), Err(ResponseCode::FormatError));
}

#[test]
fn self_pointer_is_rejected() {
    // A pointer referencing its own offset can never make progress.
    let buf = [0, 0, 0xC0, 0x02];
    assert_eq!(resolve(&buf, 2), Err(ResponseCode::FormatError));
}

#[test]
fn pointer_chain_beyond_hop_bound_is_rejected() {
    // A ladder of pointers, each referencing the one two bytes before
    // it, far deeper than the hop bound.
    let mut buf: Vec<u8> = vec![0, 0];
    for k in 0..100u16 {
        let target = 2 * k;
        buf.push(0xC0 | (target >> 8) as u8);
        buf.push(target as u8);
    }
    // The final pointer starts a chain of 100 hops that would end at
    // the terminator at offset 0; the bound cuts it off first.
    let start = buf.len() - 2;
    assert_eq!(resolve(&buf, start), Err(ResponseCode::FormatError));
}

#[test]
fn short_pointer_chain_resolves() {
    // Two hops: a pointer to a pointer to a real name.
    let buf = [
        3, b'f', b'o', b'o', 0, // name at 0
        0xC0, 0x00, // pointer at 5
        0xC0, 0x05, // pointer at 7
    ];
    let (name, end) = resolve_name(&buf, 7).unwrap();
    assert_eq!(name, "foo");
    assert_eq!(end, 9);
}

#[test]
fn missing_terminator_is_rejected() {
    let buf = [3, b'w', b'w', b'w'];
    assert_eq!(resolve(&buf, 0), Err(ResponseCode::FormatError));
}

#[test]
fn label_past_buffer_end_is_rejected() {
    let buf = [9, b'w', b'w', b'w', 0];
    assert_eq!(resolve(&buf, 0), Err(ResponseCode::FormatError));
}

#[test]
fn reserved_length_bits_are_rejected() {
    // A length octet with only the top bit set is neither a label nor
    // a pointer.
    let buf = [0x80, 0x01, 0];
    assert_eq!(resolve(&buf, 0), Err(ResponseCode::FormatError));
}

#[test]
fn write_name_emits_length_prefixed_labels() {
    let mut bytes: Vec<u8> = Vec::new();
    let labels = vec![String::from("www"), String::from("example"), String::from("com")];
    write_name(&mut bytes, &labels).unwrap();
    assert_eq!(
        bytes,
        vec![3, b'w', b'w', b'w', 7, b'e', b'x', b'a', b'm', b'p', b'l', b'e', 3, b'c', b'o',
            b'm', 0]
    );
}

#[test]
fn write_name_rejects_empty_label() {
    let mut bytes: Vec<u8> = Vec::new();
    let labels = vec![String::from("www"), String::from("")];
    assert_eq!(write_name(&mut bytes, &labels), Err(ResponseCode::FormatError));
    assert!(bytes.is_empty());
}

#[test]
fn write_name_rejects_name_over_255_octets() {
    let mut bytes: Vec<u8> = Vec::new();
    let labels: Vec<String> = (0..5).map(|_| "a".repeat(63)).collect();
    assert_eq!(write_name(&mut bytes, &labels), Err(ResponseCode::FormatError));
    assert!(bytes.is_empty());
}

#[test]
fn written_name_decodes_back() {
    let mut bytes: Vec<u8> = Vec::new();
    let labels = vec![String::from("a"), String::from("b-c"), String::from("org")];
    write_name(&mut bytes, &labels).unwrap();
    let (decoded, end) = resolve(&bytes, 0).unwrap();
    assert_eq!(decoded, labels);
    assert_eq!(end, bytes.len());
}
