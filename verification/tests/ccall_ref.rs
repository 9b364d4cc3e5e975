use jlrs::data::managed::ccall_ref::CCallRefRet;

#[test]
fn ccall_ref_ret_hands_value_back() {
    let ret = CCallRefRet::new(42u64);
    assert_eq!(ret.into_typed_value(), 42u64);
    let ret = CCallRefRet::new(String::from("x"));
    assert_eq!(ret.into_typed_value(), "x");
}
