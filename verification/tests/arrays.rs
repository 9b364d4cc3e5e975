use jlrs::data::managed::array::data::accessor::{BitsUnionArray, UnionAccessError};
use jlrs::data::managed::array::dimensions::Dimensions;
use jlrs::data::managed::array::{
    array_valid_field, check_array_shape, element_size, ArrayCreationError, ElementType, FieldType,
    How, InstantiationError,
};
use jlrs::data::managed::union::{Union, UnionValue};

#[test]
fn how_flags() {
    assert_eq!(How::from_flag(0), How::InlineOrForeign);
    assert_eq!(How::from_flag(1), How::JuliaAllocated);
    assert_eq!(How::from_flag(2), How::MallocAllocated);
    assert_eq!(How::from_flag(3), How::PointerToOwner);
}

#[test]
fn element_sizes() {
    let ptr = std::mem::size_of::<usize>();
    assert_eq!(element_size(ElementType::DataType { size: Some(8) }), 8);
    assert_eq!(element_size(ElementType::DataType { size: None }), ptr);
    assert_eq!(element_size(ElementType::Union { bits_size: Some(4) }), 4);
    assert_eq!(element_size(ElementType::Union { bits_size: None }), ptr);
    assert_eq!(element_size(ElementType::Other), ptr);
}

#[test]
fn shape_checks() {
    assert_eq!(check_array_shape(2, &(3usize, 4usize), 12, true), Ok(()));
    assert_eq!(
        check_array_shape(2, &(3usize, 4usize), 11, true),
        Err(ArrayCreationError::Instantiation(InstantiationError::ArraySizeMismatch {
            vec_size: 11,
            dim_size: 12
        }))
    );
    let dims: &[usize] = &[2, 2, 2];
    assert_eq!(
        check_array_shape(2, &dims, 8, true),
        Err(ArrayCreationError::Instantiation(InstantiationError::ArrayRankMismatch {
            expected: 2,
            found: 3
        }))
    );
    assert_eq!(check_array_shape(-1, &dims, 8, true), Ok(()));
    assert_eq!(check_array_shape(3, &dims, 8, true), Ok(()));
}

#[test]
fn shape_checks_layout_last() {
    // A layout that doesn't match the element type is reported after the shape checks.
    assert_eq!(
        check_array_shape(2, &(2usize, 2usize), 4, false),
        Err(ArrayCreationError::InvalidLayout)
    );
    assert_eq!(
        check_array_shape(2, &(2usize, 2usize), 3, false),
        Err(ArrayCreationError::Instantiation(InstantiationError::ArraySizeMismatch {
            vec_size: 3,
            dim_size: 4
        }))
    );
}

fn bits_union() -> BitsUnionArray {
    // Element type Union{A, B} with A = 100, B = 200; 2x2 elements of 4 bytes each.
    let elty = UnionValue::Union(Union::new(UnionValue::Other(100), UnionValue::Other(200)));
    BitsUnionArray::new(
        Dimensions::from_dims(&(2usize, 2usize)),
        elty,
        4,
        vec![0u8; 16],
        vec![0u8, 1, 0, 5],
    )
}

#[test]
fn bits_union_get() {
    let a = bits_union();
    assert_eq!(a.get((1usize, 0usize), &[100, 200]), Ok(Some((200, &[0u8, 0, 0, 0][..]))));
    assert_eq!(a.get((0usize, 0usize), &[100, 200]), Ok(Some((100, &[0u8, 0, 0, 0][..]))));
    assert_eq!(a.get((2usize, 0usize), &[100, 200]), Ok(None));
    assert_eq!(a.get((1usize, 1usize), &[100, 200]), Err(UnionAccessError::IllegalUnionTag { tag: 4 }));
    assert_eq!(a.variants(), vec![100, 200]);
}

#[test]
fn bits_union_set_then_get() {
    let mut a = bits_union();
    assert_eq!(a.set((0usize, 1usize), 200, vec![1, 2, 3], &[200]), Ok(Ok(())));
    assert_eq!(a.get((0usize, 1usize), &[100, 200]), Ok(Some((200, &[1u8, 2, 3, 0][..]))));
    assert_eq!(a.get((1usize, 0usize), &[100, 200]), Ok(Some((200, &[0u8, 0, 0, 0][..]))));
    assert_eq!(
        a.set((0usize, 1usize), 300, vec![9], &[300]),
        Ok(Err(UnionAccessError::IncompatibleType { value_type: 300 }))
    );
    assert_eq!(a.set((5usize, 1usize), 100, vec![9], &[100]), Err(vec![9]));
    a.set_unchecked((1usize, 1usize), 100, &[7, 7, 7, 7]);
    assert_eq!(a.get((1usize, 1usize), &[100, 200]), Ok(Some((100, &[7u8, 7, 7, 7][..]))));
    assert_eq!(a.get_unchecked((0usize, 1usize)), &[1, 2, 3, 0]);
}

#[test]
fn bits_union_invalid_layout() {
    let mut a = bits_union();
    // The layout is checked first: nothing is written, even for an out-of-bounds index.
    assert_eq!(
        a.set((0usize, 1usize), 200, vec![1], &[100]),
        Ok(Err(UnionAccessError::InvalidLayout { value_type: 200 }))
    );
    assert_eq!(
        a.set((9usize, 9usize), 300, vec![1], &[]),
        Ok(Err(UnionAccessError::InvalidLayout { value_type: 300 }))
    );
    assert_eq!(a.get((0usize, 1usize), &[100, 200]), Ok(Some((100, &[0u8, 0, 0, 0][..]))));
    // Reading an element as a layout that is not valid for its type fails.
    assert_eq!(
        a.get((1usize, 0usize), &[100]),
        Err(UnionAccessError::InvalidLayout { value_type: 200 })
    );
    assert_eq!(a.get((2usize, 0usize), &[]), Ok(None));
}

#[test]
fn array_fields() {
    let vec2 = FieldType::DataType { is_array: true, rank: Some(2) };
    assert!(array_valid_field(2, &vec2));
    assert!(array_valid_field(-1, &vec2));
    assert!(!array_valid_field(1, &vec2));
    let unknown_rank = FieldType::DataType { is_array: true, rank: None };
    assert!(array_valid_field(-1, &unknown_rank));
    assert!(!array_valid_field(3, &unknown_rank));
    let any_elem = FieldType::UnionAll { base_is_array: true, rank: Some(3) };
    assert!(array_valid_field(3, &any_elem));
    assert!(!array_valid_field(2, &any_elem));
    assert!(!array_valid_field(-1, &FieldType::UnionAll { base_is_array: false, rank: None }));
    assert!(!array_valid_field(-1, &FieldType::DataType { is_array: false, rank: Some(1) }));
    assert!(!array_valid_field(-1, &FieldType::Other));
}
