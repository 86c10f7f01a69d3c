// The driver packs and unpacks register words with its own proved bit
// operations; these tests hold them against the `bit_field` crate's
// equivalents on sample words.

use bit_field::BitField;
use flexcan::bits::test_bit;
use flexcan::layout::{code_of, get_byte, make_ctrl_word, set_byte};

#[test]
fn payload_bytes_match_bit_field_extraction() {
    let words = [0x1234_5678u32, 0xdead_beef, 0, 0xffff_ffff, 0x0102_0304];
    for w in words {
        for j in 0..4usize {
            let lo = 32 - 8 * (1 + j);
            let hi = 32 - 8 * j;
            assert_eq!(get_byte(w, j) as u32, w.get_bits(lo..hi));
        }
    }
}

#[test]
fn payload_byte_updates_match_bit_field_updates() {
    let mut expected = 0xaaaa_aaaau32;
    let mut actual = 0xaaaa_aaaau32;
    for (j, b) in [(0usize, 0x11u8), (2, 0x22), (1, 0x33), (3, 0x44), (0, 0x55)] {
        let lo = 32 - 8 * (1 + j);
        let hi = 32 - 8 * j;
        expected.set_bits(lo..hi, b as u32);
        actual = set_byte(actual, j, b);
        assert_eq!(actual, expected);
    }
}

#[test]
fn control_word_fields_sit_where_bit_field_reads_them() {
    let cs = make_ctrl_word(0xc, true, true, false, 5, 0x1234);
    assert_eq!(cs.get_bits(24..28), 0xc);
    assert_eq!(code_of(cs), 0xc);
    assert!(cs.get_bit(29)); // error state indicator
    assert!(cs.get_bit(22)); // SRR, fixed to 1
    assert!(cs.get_bit(21)); // extended identifier
    assert!(!cs.get_bit(20)); // not a remote frame
    assert_eq!(cs.get_bits(16..20), 5); // data length
    assert_eq!(cs.get_bits(0..15), 0x1234); // timestamp
    for j in 0..32 {
        assert_eq!(test_bit(cs, j), cs.get_bit(j as usize));
    }
}
