//! Access to the elements of arrays whose element type is a bits-union.
//!
//! The elements of an array whose element type is a union of `isbits` types are stored inline:
//! each element takes `element_size` bytes, and a separate type tag per element records which
//! type of the union the element has, as its position in the union.
use vstd::prelude::*;

use crate::data::managed::array::dimensions::{
    dims_in_bounds, dims_product, lemma_linear_index_bound, linear_index, Dimensions, Dims,
    DimsOps,
};
use crate::data::managed::union::{
    collect, find_union_component, first_position, lemma_first_position, nth_union_component,
    union_leaves, UnionValue,
};

verus! {

/// The bytes of element `k` of data whose elements take `es` bytes each.
pub open spec fn element_bytes(data: Seq<u8>, es: int, k: int) -> Seq<u8> {
    data.subrange(k * es, k * es + es)
}

/// `data` with the bytes of element `k` (elements take `es` bytes each) starting with `value`,
/// the remaining bytes of that element and all other elements unchanged.
pub open spec fn write_element(data: Seq<u8>, es: int, k: int, value: Seq<u8>) -> Seq<u8> {
    data.subrange(0, k * es) + value + data.subrange(k * es + value.len(), data.len() as int)
}

/// Element `k` of data whose elements take `es` bytes each is stored at byte offset `k * es`:
/// its bytes are the `es` bytes of the data that start there.
pub proof fn lemma_element_bytes_at_offset(data: Seq<u8>, es: int, k: int)
    requires
        0 <= k,
        0 <= es,
        k * es + es <= data.len(),
    ensures
        element_bytes(data, es, k).len() == es,
        forall|i: int| 0 <= i < es ==> #[trigger] element_bytes(data, es, k)[i] == data[k * es + i],
{
    assert(0 <= k * es) by (nonlinear_arith)
        requires
            0 <= k,
            0 <= es,
    ;
}

/// Writing `value` to element `k` of data whose elements take `es` bytes each puts the bytes of
/// `value` at byte offset `k * es` onwards and leaves every other byte of the data as it was.
pub proof fn lemma_write_element_at_offset(data: Seq<u8>, es: int, k: int, value: Seq<u8>)
    requires
        0 <= k,
        0 <= es,
        value.len() <= es,
        k * es + es <= data.len(),
    ensures
        write_element(data, es, k, value).len() == data.len(),
        forall|j: int|
            0 <= j < data.len() ==> #[trigger] write_element(data, es, k, value)[j] == if k * es
                <= j < k * es + value.len() {
                value[j - k * es]
            } else {
                data[j]
            },
{
    assert(0 <= k * es) by (nonlinear_arith)
        requires
            0 <= k,
            0 <= es,
    ;
    let r = write_element(data, es, k, value);
    assert forall|j: int| 0 <= j < data.len() implies #[trigger] r[j] == if k * es <= j < k * es
        + value.len() {
        value[j - k * es]
    } else {
        data[j]
    } by {
        if j < k * es {
        } else if j < k * es + value.len() {
        } else {
        }
    }
}

/// Why an element of a bits-union array can't be read or written.
#[derive(PartialEq, Eq, Structural, Debug, Clone, Copy)]
pub enum UnionAccessError {
    /// The type tag of the element is not the position of a type of the union. The tag is
    /// reported as it is left by [`nth_union_component`].
    IllegalUnionTag { tag: usize },
    /// The type of the value is not one of the types of the union.
    IncompatibleType { value_type: usize },
    /// The layout that the element is read or written as is not a valid field layout for the
    /// type `value_type`.
    InvalidLayout { value_type: usize },
}

/// Returns whether `ty` is one of `types`.
fn contains_type(types: &[usize], ty: usize) -> (r: bool)
    ensures
        r == types@.contains(ty),
{
    let n = types.len();
    let mut i: usize = 0;
    while i < n
        invariant
            0 <= i <= n,
            n == types@.len(),
            forall|k: int| 0 <= k < i ==> types@[k] != ty,
        decreases n - i,
    {
        if types[i] == ty {
            assert(types@[i as int] == ty);
            return true;
        }
        i = i + 1;
    }
    false
}

/// The data of an array whose element type is a bits-union.
pub struct BitsUnionArray {
    dimensions: Dimensions,
    element_type: UnionValue,
    element_size: usize,
    data: Vec<u8>,
    tags: Vec<u8>,
}

/// Element `k` lies within data of `n` elements of `es` bytes each.
proof fn lemma_element_in_data(n: int, es: int, k: int)
    requires
        0 <= k < n,
        0 <= es,
    ensures
        0 <= k * es,
        k * es + es <= n * es,
{
    assert(0 <= k * es) by (nonlinear_arith)
        requires
            0 <= k,
            0 <= es,
    ;
    assert(k * es + es <= n * es) by (nonlinear_arith)
        requires
            0 <= k < n,
            0 <= es,
    ;
}

impl BitsUnionArray {
    /// The number of elements of each dimension.
    pub closed spec fn dims_view(&self) -> Seq<usize> {
        self.dimensions@
    }

    /// The element type: a union of `isbits` types.
    pub closed spec fn element_type_view(&self) -> UnionValue {
        self.element_type
    }

    /// The number of bytes that each element takes.
    pub closed spec fn element_size_view(&self) -> int {
        self.element_size as int
    }

    /// The bytes of all elements, in column-major order.
    pub closed spec fn data_view(&self) -> Seq<u8> {
        self.data@
    }

    /// The type tag of each element, in column-major order.
    pub closed spec fn tags_view(&self) -> Seq<u8> {
        self.tags@
    }

    /// There is one tag per element, the data holds `element_size` bytes per element, and the
    /// union has at most `u32::MAX` types.
    pub open spec fn wf(&self) -> bool {
        &&& self.tags_view().len() == dims_product(self.dims_view())
        &&& self.data_view().len() == dims_product(self.dims_view()) * self.element_size_view()
        &&& union_leaves(self.element_type_view()).len() <= u32::MAX
    }

    /// Creates the data of a bits-union array from its dimensions, its element type, the size
    /// of its elements, the bytes of its elements and their type tags.
    pub fn new(
        dimensions: Dimensions,
        element_type: UnionValue,
        element_size: usize,
        data: Vec<u8>,
        tags: Vec<u8>,
    ) -> (r: Self)
        requires
            tags@.len() == dims_product(dimensions@),
            data@.len() == dims_product(dimensions@) * element_size,
            union_leaves(element_type).len() <= u32::MAX,
        ensures
            r.wf(),
            r.dims_view() == dimensions@,
            r.element_type_view() == element_type,
            r.element_size_view() == element_size,
            r.data_view() == data@,
            r.tags_view() == tags@,
    {
        BitsUnionArray { dimensions, element_type, element_size, data, tags }
    }

    /// Returns the dimensions of the array.
    pub fn dimensions(&self) -> (r: &Dimensions)
        ensures
            r@ == self.dims_view(),
    {
        &self.dimensions
    }

    /// Returns the types of the element type, in order.
    pub fn variants(&self) -> (r: Vec<usize>)
        ensures
            r@ == union_leaves(self.element_type_view()),
    {
        let mut comps: Vec<usize> = Vec::new();
        collect(&self.element_type, &mut comps);
        assert(comps@ =~= union_leaves(self.element_type_view()));
        comps
    }

    /// Returns the bytes of element `idx`.
    fn element(&self, idx: usize) -> (r: &[u8])
        requires
            self.wf(),
            idx < dims_product(self.dims_view()),
        ensures
            r@ == element_bytes(self.data_view(), self.element_size_view(), idx as int),
    {
        let es = self.element_size;
        proof {
            lemma_element_in_data(dims_product(self.dimensions@), es as int, idx as int);
        }
        proof {
            assert(self.data@.len() == self.data.len());
        }
        let offset = idx * es;
        let s = self.data.as_slice();
        &s[offset..offset + es]
    }

    /// Returns the type of the element at `index` and its bytes, or `None` if the index is out
    /// of bounds. `field_types` are the types for which the layout that the caller reads the
    /// bytes as is a valid field layout. An error is returned if the type tag of the element is
    /// not the position of a type of the union, or if the element's type is not one of
    /// `field_types`.
    pub fn get<D: Dims>(&self, index: D, field_types: &[usize]) -> (r: Result<
        Option<(usize, &[u8])>,
        UnionAccessError,
    >)
        requires
            self.wf(),
        ensures
            !dims_in_bounds(self.dims_view(), index.dims_view()) ==> r == Ok::<
                Option<(usize, &[u8])>,
                UnionAccessError,
            >(None),
            dims_in_bounds(self.dims_view(), index.dims_view()) ==> {
                let k = linear_index(self.dims_view(), index.dims_view());
                let tag = self.tags_view()[k] as int;
                let types = union_leaves(self.element_type_view());
                &&& tag < types.len() && field_types@.contains(types[tag]) ==> (r matches Ok(
                    Some((ty, bytes)),
                ) && ty == types[tag] && bytes@ == element_bytes(
                    self.data_view(),
                    self.element_size_view(),
                    k,
                ))
                &&& tag < types.len() && !field_types@.contains(types[tag]) ==> r == Err::<
                    Option<(usize, &[u8])>,
                    UnionAccessError,
                >(UnionAccessError::InvalidLayout { value_type: types[tag] })
                &&& tag >= types.len() ==> r == Err::<Option<(usize, &[u8])>, UnionAccessError>(
                    UnionAccessError::IllegalUnionTag { tag: (tag - (types.len() - 1)) as usize },
                )
            },
    {
        proof {
            if dims_in_bounds(self.dimensions@, index.dims_view()) {
                lemma_linear_index_bound(self.dimensions@, index.dims_view());
            }
        }
        proof {
            assert(self.tags@.len() == self.tags.len());
        }
        match self.dimensions.index_of(&index) {
            None => Ok(None),
            Some(idx) => {
                let mut tag: i32 = self.tags[idx] as i32;
                match nth_union_component(&self.element_type, &mut tag) {
                    Some(ty) => {
                        if contains_type(field_types, ty) {
                            Ok(Some((ty, self.element(idx))))
                        } else {
                            Err(UnionAccessError::InvalidLayout { value_type: ty })
                        }
                    },
                    None => Err(UnionAccessError::IllegalUnionTag { tag: tag as usize }),
                }
            },
        }
    }

    /// Returns the bytes of the element at `index`, which must be in bounds.
    pub fn get_unchecked<D: Dims>(&self, index: D) -> (r: &[u8])
        requires
            self.wf(),
            dims_in_bounds(self.dims_view(), index.dims_view()),
        ensures
            r@ == element_bytes(
                self.data_view(),
                self.element_size_view(),
                linear_index(self.dims_view(), index.dims_view()),
            ),
    {
        proof {
            lemma_linear_index_bound(self.dimensions@, index.dims_view());
        }
        proof {
            assert(self.tags@.len() == self.tags.len());
        }
        let idx = self.dimensions.index_of_unchecked(&index);
        self.element(idx)
    }

    /// Writes `value` to the start of element `idx` and sets its tag.
    fn write(&mut self, idx: usize, tag: u8, value: &[u8])
        requires
            old(self).wf(),
            idx < dims_product(old(self).dims_view()),
            value@.len() <= old(self).element_size_view(),
        ensures
            final(self).wf(),
            final(self).dims_view() == old(self).dims_view(),
            final(self).element_type_view() == old(self).element_type_view(),
            final(self).element_size_view() == old(self).element_size_view(),
            final(self).data_view() == write_element(
                old(self).data_view(),
                old(self).element_size_view(),
                idx as int,
                value@,
            ),
            final(self).tags_view() == old(self).tags_view().update(idx as int, tag),
    {
        let es = self.element_size;
        proof {
            lemma_element_in_data(dims_product(self.dimensions@), es as int, idx as int);
        }
        proof {
            assert(self.data@.len() == self.data.len());
        }
        let offset = idx * es;
        let n = value.len();
        let ghost old_data = self.data@;
        let mut i: usize = 0;
        while i < n
            invariant
                0 <= i <= n,
                n == value@.len(),
                n <= es,
                offset + es <= old_data.len() <= usize::MAX,
                self.data@.len() == old_data.len(),
                forall|j: int| 0 <= j < offset ==> #[trigger] self.data@[j] == old_data[j],
                forall|j: int| 0 <= j < i ==> #[trigger] self.data@[offset + j] == value@[j],
                forall|j: int|
                    offset + i <= j < old_data.len() ==> #[trigger] self.data@[j] == old_data[j],
                self.dimensions == old(self).dimensions,
                self.element_type == old(self).element_type,
                self.element_size == es,
                self.tags == old(self).tags,
                old_data == old(self).data@,
            decreases n - i,
        {
            self.data.set(offset + i, value[i]);
            i = i + 1;
        }
        self.tags.set(idx, tag);
        proof {
            let expected = write_element(old_data, es as int, idx as int, value@);
            assert forall|j: int| 0 <= j < old_data.len() implies self.data@[j] == expected[j] by {
                if j < offset {
                } else if j < offset + n {
                    assert(self.data@[offset + (j - offset)] == value@[j - offset]);
                } else {
                }
            }
            assert(self.data@ =~= expected);
        }
    }

    /// Sets the element at `index` to `value`, whose type is `ty`. `field_types` are the types
    /// for which the layout of `value` is a valid field layout.
    ///
    /// Returns a nested error. The inner error is returned if `ty` is not one of `field_types`,
    /// or else if `ty` is not one of the types of the union; otherwise the outer error gives
    /// `value` back if the index is out of bounds. Nothing is written on an error.
    pub fn set<D: Dims>(
        &mut self,
        index: D,
        ty: usize,
        value: Vec<u8>,
        field_types: &[usize],
    ) -> (r: Result<
        Result<(), UnionAccessError>,
        Vec<u8>,
    >)
        requires
            old(self).wf(),
            value@.len() <= old(self).element_size_view(),
        ensures
            final(self).wf(),
            final(self).dims_view() == old(self).dims_view(),
            final(self).element_type_view() == old(self).element_type_view(),
            final(self).element_size_view() == old(self).element_size_view(),
            ({
                let types = union_leaves(old(self).element_type_view());
                let tag = first_position(types, ty);
                if !field_types@.contains(ty) {
                    &&& r == Ok::<Result<(), UnionAccessError>, Vec<u8>>(
                        Err(UnionAccessError::InvalidLayout { value_type: ty }),
                    )
                    &&& final(self).data_view() == old(self).data_view()
                    &&& final(self).tags_view() == old(self).tags_view()
                } else if !types.contains(ty) {
                    &&& r == Ok::<Result<(), UnionAccessError>, Vec<u8>>(
                        Err(UnionAccessError::IncompatibleType { value_type: ty }),
                    )
                    &&& final(self).data_view() == old(self).data_view()
                    &&& final(self).tags_view() == old(self).tags_view()
                } else if !dims_in_bounds(old(self).dims_view(), index.dims_view()) {
                    &&& (r matches Err(v) && v@ == value@)
                    &&& final(self).data_view() == old(self).data_view()
                    &&& final(self).tags_view() == old(self).tags_view()
                } else {
                    let k = linear_index(old(self).dims_view(), index.dims_view());
                    &&& r == Ok::<Result<(), UnionAccessError>, Vec<u8>>(Ok(()))
                    &&& final(self).data_view() == write_element(
                        old(self).data_view(),
                        old(self).element_size_view(),
                        k,
                        value@,
                    )
                    &&& final(self).tags_view() == old(self).tags_view().update(k, tag as u8)
                }
            }),
    {
        if !contains_type(field_types, ty) {
            return Ok(Err(UnionAccessError::InvalidLayout { value_type: ty }));
        }
        let mut tag: u32 = 0;
        proof {
            lemma_first_position(union_leaves(self.element_type), ty);
        }
        if !find_union_component(&self.element_type, ty, &mut tag) {
            return Ok(Err(UnionAccessError::IncompatibleType { value_type: ty }));
        }
        proof {
            if dims_in_bounds(self.dimensions@, index.dims_view()) {
                lemma_linear_index_bound(self.dimensions@, index.dims_view());
            }
        }
        proof {
            assert(self.tags@.len() == self.tags.len());
        }
        match self.dimensions.index_of(&index) {
            Some(idx) => {
                self.write(idx, #[verifier::truncate] (tag as u8), value.as_slice());
                Ok(Ok(()))
            },
            None => Err(value),
        }
    }

    /// Sets the element at `index` to `value`, whose type is `ty`. The index must be in bounds
    /// and `ty` must be one of the types of the union.
    pub fn set_unchecked<D: Dims>(&mut self, index: D, ty: usize, value: &[u8])
        requires
            old(self).wf(),
            value@.len() <= old(self).element_size_view(),
            dims_in_bounds(old(self).dims_view(), index.dims_view()),
            union_leaves(old(self).element_type_view()).contains(ty),
        ensures
            final(self).wf(),
            final(self).dims_view() == old(self).dims_view(),
            final(self).element_type_view() == old(self).element_type_view(),
            final(self).element_size_view() == old(self).element_size_view(),
            final(self).data_view() == write_element(
                old(self).data_view(),
                old(self).element_size_view(),
                linear_index(old(self).dims_view(), index.dims_view()),
                value@,
            ),
            final(self).tags_view() == old(self).tags_view().update(
                linear_index(old(self).dims_view(), index.dims_view()),
                first_position(union_leaves(old(self).element_type_view()), ty) as u8,
            ),
    {
        let mut tag: u32 = 0;
        proof {
            lemma_first_position(union_leaves(self.element_type), ty);
        }
        find_union_component(&self.element_type, ty, &mut tag);
        proof {
            lemma_linear_index_bound(self.dimensions@, index.dims_view());
        }
        proof {
            assert(self.tags@.len() == self.tags.len());
        }
        let idx = self.dimensions.index_of_unchecked(&index);
        self.write(idx, #[verifier::truncate] (tag as u8), value);
    }
}

/// What a read gives back of a write: after [`BitsUnionArray::set`] has written `value` of a
/// type `ty` of the union to an in-bounds `index`, the tag at that index names `ty` (as long as
/// the position of `ty` in the union fits in a tag), so [`BitsUnionArray::get`] at that index,
/// with `ty` among the field types, returns `ty` with bytes that start with `value`; every other
/// element keeps its bytes and its tag.
pub proof fn lemma_set_then_get(
    before: BitsUnionArray,
    after: BitsUnionArray,
    index: Seq<usize>,
    ty: usize,
    value: Seq<u8>,
)
    requires
        before.wf(),
        dims_in_bounds(before.dims_view(), index),
        value.len() <= before.element_size_view(),
        union_leaves(before.element_type_view()).contains(ty),
        first_position(union_leaves(before.element_type_view()), ty) < 256,
        after.dims_view() == before.dims_view(),
        after.element_type_view() == before.element_type_view(),
        after.element_size_view() == before.element_size_view(),
        after.data_view() == write_element(
            before.data_view(),
            before.element_size_view(),
            linear_index(before.dims_view(), index),
            value,
        ),
        after.tags_view() == before.tags_view().update(
            linear_index(before.dims_view(), index),
            first_position(union_leaves(before.element_type_view()), ty) as u8,
        ),
    ensures
        after.wf(),
        ({
            let types = union_leaves(after.element_type_view());
            let es = after.element_size_view();
            let k = linear_index(after.dims_view(), index);
            &&& (after.tags_view()[k] as int) < types.len()
            &&& types[after.tags_view()[k] as int] == ty
            &&& element_bytes(after.data_view(), es, k).take(value.len() as int) == value
            &&& forall|j: int|
                0 <= j < after.tags_view().len() && j != k ==> #[trigger] element_bytes(
                    after.data_view(),
                    es,
                    j,
                ) == element_bytes(before.data_view(), es, j) && after.tags_view()[j]
                    == before.tags_view()[j]
        }),
{
    let dims = before.dims_view();
    let types = union_leaves(before.element_type_view());
    let es = before.element_size_view();
    let n = dims_product(dims);
    let data = before.data_view();
    let k = linear_index(dims, index);
    lemma_linear_index_bound(dims, index);
    lemma_first_position(types, ty);
    let new_data = write_element(data, es, k, value);
    lemma_element_in_data(n, es, k);
    assert(new_data.len() == data.len());
    assert(element_bytes(new_data, es, k).take(value.len() as int) =~= value);
    assert forall|j: int| 0 <= j < n && j != k implies #[trigger] element_bytes(new_data, es, j)
        == element_bytes(data, es, j) by {
        lemma_element_in_data(n, es, j);
        if j < k {
            assert(j * es + es <= k * es) by (nonlinear_arith)
                requires
                    j < k,
                    0 <= es,
            ;
        } else {
            assert(k * es + es <= j * es) by (nonlinear_arith)
                requires
                    k < j,
                    0 <= es,
            ;
        }
        assert(element_bytes(new_data, es, j) =~= element_bytes(data, es, j));
    }
}

} // verus!
