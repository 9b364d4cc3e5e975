use jlrs::data::managed::array::data::bits::BitsArray;
use jlrs::data::managed::array::dimensions::Dimensions;

fn two_by_three() -> BitsArray<u16> {
    // Column-major: element (i, j) is 10 * j + i.
    BitsArray::new(vec![0, 1, 10, 11, 20, 21], Dimensions::from_dims(&(2usize, 3usize)))
}

#[test]
fn bits_get_in_column_major_order() {
    let a = two_by_three();
    assert_eq!(a.get((1usize, 2usize)), Some(&21));
    assert_eq!(a.get((0usize, 1usize)), Some(&10));
    assert_eq!(a.get((2usize, 0usize)), None);
    assert_eq!(a.get((0usize, 0usize, 0usize)), None);
    assert_eq!(a.get_unchecked((1usize, 0usize)), &1);
    assert_eq!(a.as_slice(), &[0, 1, 10, 11, 20, 21]);
    assert_eq!(a.dimensions().as_slice(), &[2, 3]);
}

#[test]
fn bits_set_then_get() {
    let mut a = two_by_three();
    assert_eq!(a.set((1usize, 1usize), 99), Ok(()));
    assert_eq!(a.get((1usize, 1usize)), Some(&99));
    assert_eq!(a.get((0usize, 1usize)), Some(&10));
    assert_eq!(a.set((2usize, 1usize), 7), Err(7));
    a.set_unchecked((0usize, 2usize), 5);
    assert_eq!(a.as_slice(), &[0, 1, 10, 99, 5, 21]);
    *a.get_mut((0usize, 0usize)).unwrap() = 42;
    assert_eq!(a.get((0usize, 0usize)), Some(&42));
    assert!(a.get_mut((9usize, 0usize)).is_none());
}

#[test]
fn bits_to_copied_array() {
    let a = two_by_three();
    let c = a.to_copied_array();
    assert_eq!(c.as_slice(), a.as_slice());
    assert_eq!(c.get((1usize, 2usize)), Some(&21));
    assert_eq!(c.dimensions().as_slice(), &[2, 3]);
}

#[test]
fn bits_push_and_extend() {
    let mut v = BitsArray::new(vec![1u8, 2], Dimensions::from_dims(&(2usize,)));
    v.push(3);
    assert_eq!(v.as_slice(), &[1, 2, 3]);
    assert_eq!(v.dimensions().as_slice(), &[3]);
    v.extend_from_slice(&[4, 5]);
    assert_eq!(v.as_slice(), &[1, 2, 3, 4, 5]);
    assert_eq!(v.dimensions().as_slice(), &[5]);
    assert_eq!(v.get(4usize), Some(&5));
    v.extend_from_slice(&[]);
    assert_eq!(v.dimensions().as_slice(), &[5]);
}
