use cavptool::text::{
    decode_hex, encode_decimal, encode_hex, find_byte, parse_decimal, trim,
};

#[test]
fn hex_decodes_pairs_high_digit_first() {
    assert_eq!(decode_hex(b"616263"), Some(vec![0x61, 0x62, 0x63]));
    assert_eq!(decode_hex(b"00fF7a"), Some(vec![0x00, 0xff, 0x7a]));
    assert_eq!(decode_hex(b""), Some(vec![]));
}

#[test]
fn hex_rejects_odd_length_and_foreign_bytes() {
    assert_eq!(decode_hex(b"616"), None);
    assert_eq!(decode_hex(b"6g"), None);
    assert_eq!(decode_hex(b"61 62"), None);
}

#[test]
fn hex_encodes_in_upper_case() {
    assert_eq!(encode_hex(&[0x00, 0xab, 0x7f]), b"00AB7F".to_vec());
    assert_eq!(encode_hex(&[]), Vec::<u8>::new());
}

#[test]
fn hex_round_trip_on_every_byte() {
    let all: Vec<u8> = (0..=255u8).collect();
    assert_eq!(decode_hex(&encode_hex(&all)), Some(all));
}

#[test]
fn decimal_reads_unsigned_numbers() {
    assert_eq!(parse_decimal(b"0"), Some(0));
    assert_eq!(parse_decimal(b"2544"), Some(2544));
    assert_eq!(parse_decimal(b"007"), Some(7));
    assert_eq!(parse_decimal(b"18446744073709551615"), Some(u64::MAX));
}

#[test]
fn decimal_rejects_what_is_no_number_or_does_not_fit() {
    assert_eq!(parse_decimal(b""), None);
    assert_eq!(parse_decimal(b"12a"), None);
    assert_eq!(parse_decimal(b"-1"), None);
    assert_eq!(parse_decimal(b"18446744073709551616"), None);
    assert_eq!(parse_decimal(b"99999999999999999999999"), None);
}

#[test]
fn decimal_writes_without_leading_zeros() {
    assert_eq!(encode_decimal(0), b"0".to_vec());
    assert_eq!(encode_decimal(33), b"33".to_vec());
    assert_eq!(encode_decimal(u64::MAX), b"18446744073709551615".to_vec());
    assert_eq!(parse_decimal(&encode_decimal(1234567)), Some(1234567));
}

#[test]
fn trim_cuts_blanks_at_both_ends_only() {
    assert_eq!(trim(b"  a b \t\r"), b"a b");
    assert_eq!(trim(b"   "), b"");
    assert_eq!(trim(b""), b"");
    assert_eq!(trim(b"x"), b"x");
}

#[test]
fn find_byte_gives_first_position_or_length() {
    assert_eq!(find_byte(b"a=b=c", b'='), 1);
    assert_eq!(find_byte(b"abc", b'='), 3);
    assert_eq!(find_byte(b"", b'='), 0);
}
