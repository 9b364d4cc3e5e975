use jlrs::data::text::{dec_string, hex_string, hex_string_padded, signed_dec_string};

#[test]
fn decimal_text() {
    assert_eq!(dec_string(0), "0");
    assert_eq!(dec_string(9), "9");
    assert_eq!(dec_string(10), "10");
    assert_eq!(dec_string(u64::MAX), u64::MAX.to_string());
    assert_eq!(signed_dec_string(-45), "-45");
    assert_eq!(signed_dec_string(i64::MIN), i64::MIN.to_string());
}

#[test]
fn hexadecimal_text() {
    assert_eq!(hex_string(255), "ff");
    assert_eq!(hex_string_padded(0xd800, 8), "0000d800");
    assert_eq!(hex_string_padded(0x123456789, 4), "123456789");
    assert_eq!(hex_string_padded(0, 0), "0");
}
