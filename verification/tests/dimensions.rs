use jlrs::data::managed::array::dimensions::{
    ArrayDimensions, CompatibleIndices, DimSlice, Dimensions, Dims, DimsExt, DimsOps,
    DimsRankAssert, DimsRankCheck, RankedDims,
};

#[test]
fn convert_usize() {
    let d: Dimensions = 4.to_dimensions();
    assert_eq!(d.rank(), 1);
    assert_eq!(d.n_elements(0), Some(4));
    assert_eq!(d.size(), 4);
}

#[test]
fn convert_tuple_0d() {
    let d: Dimensions = ().to_dimensions();
    assert_eq!(d.rank(), 0);
    assert_eq!(d.n_elements(0), Some(0));
    assert_eq!(d.size(), 1);
}

#[test]
fn convert_tuple_1d() {
    let d: Dimensions = (4,).to_dimensions();
    assert_eq!(d.rank(), 1);
    assert_eq!(d.n_elements(0), Some(4));
    assert_eq!(d.size(), 4);
}

#[test]
fn convert_tuple_2d() {
    let d: Dimensions = (4, 3).to_dimensions();
    assert_eq!(d.rank(), 2);
    assert_eq!(d.n_elements(0), Some(4));
    assert_eq!(d.n_elements(1), Some(3));
    assert_eq!(d.size(), 12);
}

#[test]
fn convert_tuple_3d() {
    let d: Dimensions = (4, 3, 2).to_dimensions();
    assert_eq!(d.rank(), 3);
    assert_eq!(d.n_elements(0), Some(4));
    assert_eq!(d.n_elements(1), Some(3));
    assert_eq!(d.n_elements(2), Some(2));
    assert_eq!(d.size(), 24);
}

#[test]
fn convert_tuple_4d() {
    let d: Dimensions = (4, 3, 2, 1).to_dimensions();
    assert_eq!(d.rank(), 4);
    assert_eq!(d.n_elements(0), Some(4));
    assert_eq!(d.n_elements(1), Some(3));
    assert_eq!(d.n_elements(2), Some(2));
    assert_eq!(d.n_elements(3), Some(1));
    assert_eq!(d.size(), 24);
}

#[test]
fn convert_array_5d() {
    let d: Dimensions = (&[4, 3, 2, 1, 2]).to_dimensions();
    assert_eq!(d.rank(), 5);
    assert_eq!(d.n_elements(0), Some(4));
    assert_eq!(d.n_elements(1), Some(3));
    assert_eq!(d.n_elements(2), Some(2));
    assert_eq!(d.n_elements(3), Some(1));
    assert_eq!(d.n_elements(4), Some(2));
    assert_eq!(d.size(), 48);
}

#[test]
fn convert_array_nd() {
    let v = &[1, 2, 3][..];
    let d: Dimensions = v.to_dimensions();
    assert_eq!(d.rank(), 3);
    assert_eq!(d.n_elements(0), Some(1));
    assert_eq!(d.n_elements(1), Some(2));
    assert_eq!(d.n_elements(2), Some(3));
    assert_eq!(d.size(), 6);
}

#[test]
fn n_elements_out_of_bounds() {
    assert_eq!((4usize, 3usize).n_elements(2), None);
    assert_eq!(7usize.n_elements(1), None);
    assert_eq!(().n_elements(1), None);
}

#[test]
fn index_of_column_major() {
    let dims = (4usize, 3usize);
    assert_eq!(dims.index_of(&(0usize, 0usize)), Some(0));
    assert_eq!(dims.index_of(&(1usize, 0usize)), Some(1));
    assert_eq!(dims.index_of(&(0usize, 1usize)), Some(4));
    assert_eq!(dims.index_of(&(3usize, 2usize)), Some(11));
    let dims3 = [2usize, 3, 4];
    assert_eq!(dims3.index_of(&[1usize, 2, 3]), Some(1 + 2 * (2 + 3 * 3)));
}

#[test]
fn index_of_out_of_bounds() {
    let dims = (4usize, 3usize);
    assert_eq!(dims.index_of(&(4usize, 0usize)), None);
    assert_eq!(dims.index_of(&(0usize, 3usize)), None);
}

#[test]
fn index_of_rank_mismatch() {
    let dims = Dimensions::from_dims(&(4usize, 3usize));
    let idx: &[usize] = &[1, 1, 0];
    assert_eq!(dims.index_of(&idx), None);
}

#[test]
fn index_of_rank_zero() {
    assert_eq!(().index_of(&()), Some(0));
}

#[test]
fn index_of_unchecked_matches_index_of() {
    let dims = [5usize, 6, 7];
    let idx = [4usize, 5, 6];
    assert_eq!(dims.index_of_unchecked(&idx), 4 + 5 * (5 + 6 * 6));
    assert_eq!(dims.index_of(&idx), Some(dims.index_of_unchecked(&idx)));
}

#[test]
fn every_index_visits_every_position_once() {
    let dims = (2usize, 3usize, 4usize);
    let mut seen = vec![false; dims.size()];
    for k in 0..4 {
        for j in 0..3 {
            for i in 0..2 {
                let p = dims.index_of(&(i, j, k)).unwrap();
                assert!(!seen[p]);
                seen[p] = true;
            }
        }
    }
    assert!(seen.iter().all(|s| *s));
}

#[test]
fn size_with_zero_dimension() {
    assert_eq!((3usize, 0usize, 5usize).size(), 0);
    let d = [0usize, 7];
    assert_eq!(d.size(), 0);
}

#[test]
fn dimensions_many_as_slice() {
    let d = Dimensions::from_dims(&[9usize, 8, 7, 6, 5, 4]);
    assert_eq!(d.as_slice(), &[9, 8, 7, 6, 5, 4]);
    let c = d.clone();
    assert_eq!(c.as_slice(), d.as_slice());
    assert_eq!(d.to_slicer().as_slice(), &[9, 8, 7, 6, 5, 4]);
}

#[test]
fn dimensions_few_as_slice() {
    let d = Dimensions::from_dims(&(2usize, 5usize));
    assert_eq!(d.as_slice(), &[2, 5]);
    let e = Dimensions::from_dims(&());
    assert_eq!(e.as_slice(), &[] as &[usize]);
}

#[test]
fn slicers() {
    assert_eq!(5usize.to_slicer().as_slice(), &[5]);
    assert_eq!(().to_slicer().as_slice(), &[] as &[usize]);
    assert_eq!((1usize, 2usize, 3usize, 4usize).to_slicer().as_slice(), &[1, 2, 3, 4]);
    let backing = [3usize, 1, 4];
    let a = ArrayDimensions::new(&backing);
    assert_eq!(a.to_slicer().as_slice(), &[3, 1, 4]);
    assert_eq!(a.rank(), 3);
    assert_eq!(a.n_elements(2), Some(4));
    assert_eq!(a.as_slice(), &[3, 1, 4]);
}

#[test]
fn fill_tuples() {
    let mut tup = [0usize; 3];
    RankedDims::fill_tuple(&(7usize, 8usize, 9usize), &mut tup);
    assert_eq!(tup, [7, 8, 9]);
    let mut tup2 = [0usize; 2];
    let s: &[usize] = &[5, 6];
    DimsExt::fill_tuple(&s, &mut tup2);
    assert_eq!(tup2, [5, 6]);
    let mut tup3 = [0usize; 5];
    let d = Dimensions::from_dims(&[1usize, 2, 3, 4, 5]);
    DimsExt::fill_tuple(&d, &mut tup3);
    assert_eq!(tup3, [1, 2, 3, 4, 5]);
}

#[test]
fn rank_constants_and_checks() {
    assert_eq!(<usize as Dims>::RANK, 1);
    assert_eq!(<() as Dims>::RANK, 0);
    assert_eq!(<[usize; 6] as Dims>::RANK, 6);
    assert!(<Dimensions as Dims>::UNKNOWN_RANK);
    assert!(!<(usize, usize) as Dims>::UNKNOWN_RANK);
    assert!(<((usize, usize), [usize; 2]) as CompatibleIndices<(usize, usize), [usize; 2]>>::assert_compatible());
    assert!(!<((usize, usize), usize) as CompatibleIndices<(usize, usize), usize>>::assert_compatible());
    assert!(<(Dimensions, usize) as CompatibleIndices<Dimensions, usize>>::assert_compatible());
    assert!(<DimsRankAssert<Dimensions> as DimsRankCheck<Dimensions>>::needs_runtime_rank_check(2));
    assert!(!<DimsRankAssert<Dimensions> as DimsRankCheck<Dimensions>>::needs_runtime_rank_check(-1));
    assert!(!<DimsRankAssert<usize> as DimsRankCheck<usize>>::assert_valid_rank(2));
    assert!(<DimsRankAssert<usize> as DimsRankCheck<usize>>::assert_valid_rank(-1));
}

#[test]
fn dimensions_text() {
    assert_eq!((4usize, 3usize).to_dimensions().debug_string(), "Dimensions(4, 3)");
    assert_eq!(().to_dimensions().debug_string(), "Dimensions");
    assert_eq!((4usize, 3usize).to_dimensions().display_string(), "(4, 3)");
    assert_eq!(7usize.to_dimensions().display_string(), "(7,)");
    assert_eq!(().to_dimensions().display_string(), "");
    assert_eq!([1usize, 2, 3, 4, 5].to_dimensions().display_string(), "(1, 2, 3, 4, 5)");
}
