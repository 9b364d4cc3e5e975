//! N-dimensional arrays: how they are allocated, the size of their elements, and the checks
//! made before an array is created from Rust data.
use vstd::prelude::*;

use dimensions::{dims_product, ranks_compatible, size_fits, Dims, DimsOps};

pub mod data;
pub mod dimensions;

verus! {

/// How an array has been allocated.
#[derive(PartialEq, Eq, Structural, Debug, Clone, Copy)]
pub enum How {
    InlineOrForeign,
    JuliaAllocated,
    MallocAllocated,
    PointerToOwner,
}

impl How {
    /// Decodes the allocation flag stored in an array, which is one of 0, 1, 2 and 3.
    pub fn from_flag(how: u8) -> (r: How)
        requires
            how < 4,
        ensures
            how == 0 ==> r == How::InlineOrForeign,
            how == 1 ==> r == How::JuliaAllocated,
            how == 2 ==> r == How::MallocAllocated,
            how == 3 ==> r == How::PointerToOwner,
    {
        match how {
            0 => How::InlineOrForeign,
            1 => How::JuliaAllocated,
            2 => How::MallocAllocated,
            _ => How::PointerToOwner,
        }
    }
}

/// What the size of an array's elements depends on: the kind of its element type.
#[derive(PartialEq, Eq, Structural, Debug, Clone, Copy)]
pub enum ElementType {
    /// A `DataType`, with its size if it has one.
    DataType { size: Option<u32> },
    /// A `Union`, with the size of its bits-union layout if the bits-union optimization
    /// applies to it.
    Union { bits_size: Option<usize> },
    /// Any other type, such as a `UnionAll`.
    Other,
}

/// The size of an element of an array whose element type is `elty`: the size of the
/// `DataType` if it has one, the size of the bits-union layout of a union to which the
/// bits-union optimization applies, and otherwise the size of a pointer.
pub open spec fn spec_element_size(elty: ElementType) -> int {
    match elty {
        ElementType::DataType { size: Some(sz) } => sz as int,
        ElementType::Union { bits_size: Some(sz) } => sz as int,
        _ => vstd::layout::size_of::<usize>() as int,
    }
}

/// An element of an array whose element type has a size takes exactly that size, whatever
/// it is: a `DataType` with a size, or a union with a bits-union layout, is never rounded to
/// another size. Element types without a size take the size of a pointer.
pub proof fn lemma_element_size_is_type_size(size: u32, bits_size: usize)
    ensures
        spec_element_size(ElementType::DataType { size: Some(size) }) == size,
        spec_element_size(ElementType::Union { bits_size: Some(bits_size) }) == bits_size,
        spec_element_size(ElementType::DataType { size: None }) == vstd::layout::size_of::<
            usize,
        >(),
        spec_element_size(ElementType::Union { bits_size: None }) == vstd::layout::size_of::<
            usize,
        >(),
        spec_element_size(ElementType::Other) == vstd::layout::size_of::<usize>(),
{
}

/// Returns the size of an element of an array whose element type is `elty`.
pub fn element_size(elty: ElementType) -> (r: usize)
    ensures
        r == spec_element_size(elty),
        elty matches ElementType::DataType { size: Some(sz) } ==> r == sz,
        elty matches ElementType::Union { bits_size: Some(sz) } ==> r == sz,
{
    match elty {
        ElementType::DataType { size } => match size {
            Some(sz) => sz as usize,
            None => core::mem::size_of::<usize>(),
        },
        ElementType::Union { bits_size } => match bits_size {
            Some(sz) => sz,
            None => core::mem::size_of::<usize>(),
        },
        ElementType::Other => core::mem::size_of::<usize>(),
    }
}

/// Why an array can't be created from some data with some dimensions.
#[derive(PartialEq, Eq, Structural, Debug, Clone, Copy)]
pub enum InstantiationError {
    /// The rank of the dimensions differs from the rank of the array.
    ArrayRankMismatch { expected: usize, found: usize },
    /// The number of elements described by the dimensions differs from the number of
    /// elements of the data.
    ArraySizeMismatch { vec_size: usize, dim_size: usize },
}

/// Why an array can't be created from Rust data.
#[derive(PartialEq, Eq, Structural, Debug, Clone, Copy)]
pub enum ArrayCreationError {
    /// The dimensions don't fit the array or the data.
    Instantiation(InstantiationError),
    /// The layout of the Rust elements is not a valid layout for the element type.
    InvalidLayout,
}

/// Checks that an array of rank `rank` (`-1` if it is only known at runtime) can be created
/// with dimensions `dims` from `data_len` elements of data whose layout is valid for the
/// element type if `layout_valid` is true. The checks are made in order: when the rank of the
/// array is known but that of the dimensions isn't, they must be equal; the dimensions must
/// describe exactly `data_len` elements; and the layout must be valid.
pub fn check_array_shape<D: Dims>(
    rank: isize,
    dims: &D,
    data_len: usize,
    layout_valid: bool,
) -> (r: Result<(), ArrayCreationError>)
    requires
        rank >= -1,
        ranks_compatible(D::RANK, rank),
        size_fits(dims.dims_view()),
    ensures
        ({
            let rank_ok = rank == -1 || D::RANK != -1 || dims.dims_view().len() == rank;
            let size_ok = dims_product(dims.dims_view()) == data_len;
            &&& !rank_ok ==> r == Err::<(), ArrayCreationError>(
                ArrayCreationError::Instantiation(
                    InstantiationError::ArrayRankMismatch {
                        expected: rank as usize,
                        found: dims.dims_view().len() as usize,
                    },
                ),
            )
            &&& rank_ok && !size_ok ==> r == Err::<(), ArrayCreationError>(
                ArrayCreationError::Instantiation(
                    InstantiationError::ArraySizeMismatch {
                        vec_size: data_len,
                        dim_size: dims_product(dims.dims_view()) as usize,
                    },
                ),
            )
            &&& rank_ok && size_ok && !layout_valid ==> r == Err::<(), ArrayCreationError>(
                ArrayCreationError::InvalidLayout,
            )
            &&& r is Ok <==> rank_ok && size_ok && layout_valid
        }),
{
    if rank != -1 && D::RANK == -1 {
        let found = dims.rank();
        if found != rank as usize {
            return Err(
                ArrayCreationError::Instantiation(
                    InstantiationError::ArrayRankMismatch { expected: rank as usize, found },
                ),
            );
        }
    }
    let dim_size = dims.size();
    if dim_size != data_len {
        return Err(
            ArrayCreationError::Instantiation(
                InstantiationError::ArraySizeMismatch { vec_size: data_len, dim_size },
            ),
        );
    }
    if !layout_valid {
        return Err(ArrayCreationError::InvalidLayout);
    }
    Ok(())
}

/// What checking whether a field can be an array needs to know of the field's Julia type.
#[derive(PartialEq, Eq, Structural, Debug, Clone, Copy)]
pub enum FieldType {
    /// A `DataType`: whether it is an `Array` type, and its rank parameter if that parameter
    /// is an `isize`.
    DataType { is_array: bool, rank: Option<isize> },
    /// A `UnionAll`: whether its base type is an `Array` type, and the base type's rank
    /// parameter if that parameter is an `isize`.
    UnionAll { base_is_array: bool, rank: Option<isize> },
    /// Any other type, such as a `Union`.
    Other,
}

/// Whether a reference to an array of rank `rank` (`-1` for any rank) is the correct
/// representation of a field of type `ty`: `ty` must be an `Array` type, or a `UnionAll` whose
/// base type is one, and when the rank is known the type's rank parameter must be that rank.
pub open spec fn spec_array_valid_field(rank: isize, ty: FieldType) -> bool {
    match ty {
        FieldType::DataType { is_array, rank: param } => is_array && (rank == -1 || param
            == Some(rank)),
        FieldType::UnionAll { base_is_array, rank: param } => base_is_array && (rank == -1
            || param == Some(rank)),
        FieldType::Other => false,
    }
}

/// How the answer depends on the field type: an `Array` `DataType` and a `UnionAll` whose base
/// type is `Array` are treated alike; with an unknown rank (`-1`) every such type is a valid
/// array field, whatever its rank parameter, and nothing else is; with a known rank, such a type
/// is valid exactly when its rank parameter is that rank. So a type that is valid for some rank
/// is valid for an unknown rank.
pub proof fn lemma_array_valid_field(rank: isize, is_array: bool, param: Option<isize>)
    requires
        rank >= -1,
    ensures
        spec_array_valid_field(rank, FieldType::DataType { is_array, rank: param })
            == spec_array_valid_field(rank, FieldType::UnionAll { base_is_array: is_array, rank: param }),
        spec_array_valid_field(-1isize, FieldType::DataType { is_array, rank: param }) == is_array,
        spec_array_valid_field(-1isize, FieldType::UnionAll { base_is_array: is_array, rank: param })
            == is_array,
        rank != -1 ==> (spec_array_valid_field(rank, FieldType::DataType { is_array, rank: param })
            == (is_array && param == Some(rank))),
        spec_array_valid_field(rank, FieldType::DataType { is_array, rank: param })
            ==> spec_array_valid_field(-1isize, FieldType::DataType { is_array, rank: param }),
        !spec_array_valid_field(rank, FieldType::Other),
{
}

/// Returns whether a reference to an array of rank `rank` (`-1` for any rank) is the correct
/// representation of a field of type `ty`.
pub fn array_valid_field(rank: isize, ty: &FieldType) -> (r: bool)
    ensures
        r == spec_array_valid_field(rank, *ty),
        rank == -1 ==> (*ty matches FieldType::DataType { is_array, .. } ==> r == is_array),
        rank == -1 ==> (*ty matches FieldType::UnionAll { base_is_array, .. } ==> r
            == base_is_array),
        rank != -1 ==> (*ty matches FieldType::DataType { is_array, rank: param } ==> r == (
        is_array && param == Some(rank))),
        rank != -1 ==> (*ty matches FieldType::UnionAll { base_is_array, rank: param } ==> r == (
        base_is_array && param == Some(rank))),
        *ty is Other ==> !r,
{
    match ty {
        FieldType::DataType { is_array, rank: param } => {
            if !*is_array {
                return false;
            }
            if rank != -1 {
                match param {
                    Some(k) => *k == rank,
                    None => false,
                }
            } else {
                true
            }
        },
        FieldType::UnionAll { base_is_array, rank: param } => {
            if !*base_is_array {
                return false;
            }
            if rank != -1 {
                match param {
                    Some(k) => *k == rank,
                    None => false,
                }
            } else {
                true
            }
        },
        FieldType::Other => false,
    }
}

} // verus!
