use jlrs::data::managed::string::{JuliaString, StringError};

#[test]
fn string_as_str() {
    let s = JuliaString::new("hello");
    assert_eq!(s.len(), 5);
    assert_eq!(s.as_str(), Ok("hello"));
    assert_eq!(s.as_bytes(), b"hello");
    assert_eq!(s.as_c_str(), b"hello");
}

#[test]
fn string_with_null_byte() {
    let s = JuliaString::new_bytes(b"ab\0cd");
    assert_eq!(s.len(), 5);
    assert_eq!(s.as_c_str(), b"ab");
    assert_eq!(s.as_str(), Ok("ab\0cd"));
    assert_eq!(s.as_bytes(), b"ab\0cd");
}

#[test]
fn string_invalid_utf8() {
    let s = JuliaString::new_bytes(&[0x61, 0xff, 0x62]);
    assert_eq!(s.as_str(), Err(StringError::InvalidUtf8 { valid_up_to: 1 }));
    let t = JuliaString::new_bytes(b"ab\xe2\x82");
    assert_eq!(t.as_str(), Err(StringError::InvalidUtf8 { valid_up_to: 2 }));
    let u = JuliaString::new_bytes(b"\xff");
    assert_eq!(u.as_str(), Err(StringError::InvalidUtf8 { valid_up_to: 0 }));
    assert_eq!(s.unbox_string(), Err(vec![0x61, 0xff, 0x62]));
}

#[test]
fn string_unbox() {
    let s = JuliaString::new("héllo");
    assert_eq!(s.unbox_string(), Ok(String::from("héllo")));
    let t = JuliaString::new_bytes(b"x\0y");
    assert_eq!(t.unbox_string(), Ok(String::from("x\0y")));
    let u = JuliaString::new_bytes(b"x\0\xff");
    assert_eq!(u.unbox_string(), Err(b"x\0\xff".to_vec()));
}
