use jlrs::data::managed::array::data::copied::CopiedArray;
use jlrs::data::managed::array::dimensions::Dimensions;

fn sample() -> CopiedArray<u32> {
    // A 2x3 array in column-major order: element (i, j) is 10 * i + j.
    let data: Vec<u32> = vec![0, 10, 1, 11, 2, 12];
    CopiedArray::new(data.into_boxed_slice(), Dimensions::from_dims(&(2usize, 3usize)))
}

#[test]
fn copied_get() {
    let a = sample();
    assert_eq!(a.get((0usize, 0usize)), Some(&0));
    assert_eq!(a.get((1usize, 0usize)), Some(&10));
    assert_eq!(a.get((1usize, 2usize)), Some(&12));
    assert_eq!(a.get((2usize, 0usize)), None);
    assert_eq!(a.get((0usize, 3usize)), None);
    assert_eq!(a.get([1usize, 1]), Some(&11));
}

#[test]
fn copied_get_rank_mismatch() {
    let a = sample();
    assert_eq!(a.get(1usize), None);
    assert_eq!(a.get((0usize, 0usize, 0usize)), None);
}

#[test]
fn copied_get_mut() {
    let mut a = sample();
    *a.get_mut((0usize, 1usize)).unwrap() = 99;
    assert_eq!(a.get((0usize, 1usize)), Some(&99));
    assert_eq!(a.as_slice(), &[0, 10, 99, 11, 2, 12]);
    assert!(a.get_mut((5usize, 5usize)).is_none());
}

#[test]
fn copied_slices_and_splat() {
    let mut a = sample();
    a.as_mut_slice()[5] = 7;
    assert_eq!(a.dimensions().as_slice(), &[2, 3]);
    let (data, dims) = a.splat();
    assert_eq!(&*data, &[0, 10, 1, 11, 2, 7]);
    assert_eq!(dims.as_slice(), &[2, 3]);
}
