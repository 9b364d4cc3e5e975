use jlrs::data::managed::parachute::{parachute_type_name, AttachParachute};
use jlrs::data::text::hex_string;

#[test]
fn parachute_round_trip() {
    let p = vec![1u8, 2, 3].attach_parachute();
    assert_eq!(p.as_ref(), &vec![1u8, 2, 3]);
    assert_eq!(p.remove_parachute(), vec![1u8, 2, 3]);
}

#[test]
fn parachute_mutable_access() {
    let mut p = vec![1u8, 2, 3].attach_parachute();
    p.as_mut().push(4);
    assert_eq!(p.as_ref(), &vec![1u8, 2, 3, 4]);
    *p.as_mut() = vec![9u8];
    assert_eq!(p.remove_parachute(), vec![9u8]);
}

#[test]
fn hex_strings() {
    assert_eq!(hex_string(0), "0");
    assert_eq!(hex_string(15), "f");
    assert_eq!(hex_string(16), "10");
    assert_eq!(hex_string(0xdeadbeef), "deadbeef");
    assert_eq!(hex_string(u64::MAX), "ffffffffffffffff");
}

#[test]
fn parachute_names_use_fnv() {
    // FNV-1a of no bytes is its offset basis, of "a" a known value.
    assert_eq!(parachute_type_name(&[]), "__Parachute_cbf29ce484222325__");
    assert_eq!(parachute_type_name(b"a"), "__Parachute_af63dc4c8601ec8c__");
    assert_eq!(parachute_type_name(b"foobar"), "__Parachute_85944171f73967e8__");
}
