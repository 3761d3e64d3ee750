//! Wire-primitive tests: integer byte conversion, vector helpers and
//! the bit writer.

use rustdns::wire::{
    BitWriter, Methods, bit_assign, convert_two_u8s_to_u16, convert_u16_to_two_u8s, prepend,
    push_byte_vec,
};

#[test]
fn u16_byte_conversion_roundtrips() {
    assert_eq!(convert_u16_to_two_u8s(0x1234), [0x12, 0x34]);
    assert_eq!(convert_u16_to_two_u8s(0x00FF), [0x00, 0xFF]);
    assert_eq!(convert_two_u8s_to_u16(0x12, 0x34), 0x1234);
    assert_eq!(convert_two_u8s_to_u16(0xFF, 0xFF), 0xFFFF);
    for v in [0u16, 1, 255, 256, 0x8000, 0xFFFF] {
        let [hi, lo] = convert_u16_to_two_u8s(v);
        assert_eq!(convert_two_u8s_to_u16(hi, lo), v);
    }
}

#[test]
fn prepend_puts_the_slice_first() {
    let v = vec![3u8, 4, 5];
    assert_eq!(prepend(v, &[1, 2]), vec![1, 2, 3, 4, 5]);
}

#[test]
fn push_byte_vec_repeats_the_item() {
    let mut v = vec![9u8];
    push_byte_vec(&mut v, 3, 0xAB);
    assert_eq!(v, vec![9, 0xAB, 0xAB, 0xAB]);
}

#[test]
fn bit_assign_selects_by_bit() {
    assert_eq!(bit_assign("zero", "one", false), "zero");
    assert_eq!(bit_assign("zero", "one", true), "one");
}

#[test]
fn bit_writer_builds_bytes_msb_first() {
    let mut w = BitWriter::new();
    w.write_one(true);
    w.write_one(false);
    w.write_one(true);
    w.skip(5);
    assert_eq!(w.bytes, vec![0b1010_0000]);
    assert_eq!(w.offset, 8);
    w.write_u8(0x7F);
    w.write_u16(0x0102);
    assert_eq!(w.bytes, vec![0b1010_0000, 0x7F, 0x01, 0x02]);
    assert_eq!(w.offset, 32);
}

#[test]
fn bit_writer_matches_the_header_flags_layout() {
    // Write the flag bytes of a header the way the wire layout reads
    // them: QR, a 4-bit opcode, AA, TC, RD, then RA, three reserved
    // bits and a 4-bit response code.
    let mut w = BitWriter::new();
    w.write_one(false); // query
    w.skip(4); // opcode 0
    w.write_one(false); // not authoritative
    w.write_one(false); // not truncated
    w.write_one(true); // recursion desired
    w.write_one(false); // recursion not available
    w.skip(3); // reserved
    w.skip(4); // response code 0
    assert_eq!(w.bytes, vec![0x01, 0x00]);
}
