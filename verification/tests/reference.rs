use jlrs::data::managed::Ref;

#[test]
fn leaked_ref_points_to_same_data() {
    let r = Ref::wrap(0x1000);
    assert_eq!(r.data_ptr(), 0x1000);
    let leaked = r.leak();
    assert_eq!(leaked.data_ptr(), 0x1000);
    // `Ref` is `Copy`: the original can still be used.
    assert_eq!(r.data_ptr(), 0x1000);
}
