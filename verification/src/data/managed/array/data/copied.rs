//! Array data that has been copied from Julia to Rust.
use vstd::prelude::*;

use crate::data::managed::array::dimensions::{
    dims_in_bounds, dims_product, lemma_linear_index_bound, lemma_linear_index_injective,
    linear_index, Dimensions, Dims, DimsOps,
};

verus! {

/// An n-dimensional array whose contents have been copied from Julia to Rust.
///
/// The data has a column-major order and can be indexed with anything that implements
/// [`Dims`].
pub struct CopiedArray<T> {
    data: Box<[T]>,
    dimensions: Dimensions,
}

impl<T> CopiedArray<T> {
    /// The array's elements in column-major order.
    pub closed spec fn data_view(&self) -> Seq<T> {
        (*self.data)@
    }

    /// The number of elements of each dimension of the array.
    pub closed spec fn dims_view(&self) -> Seq<usize> {
        self.dimensions@
    }

    /// The dimensions describe exactly as many elements as the array holds.
    pub open spec fn wf(&self) -> bool {
        &&& dims_product(self.dims_view()) == self.data_view().len()
        &&& self.data_view().len() <= usize::MAX
    }

    /// Creates an array from its data in column-major order and its dimensions, which must
    /// describe exactly as many elements as `data` holds.
    pub fn new(data: Box<[T]>, dimensions: Dimensions) -> (r: Self)
        requires
            dims_product(dimensions@) == (*data)@.len(),
        ensures
            r.wf(),
            r.data_view() == (*data)@,
            r.dims_view() == dimensions@,
    {
        proof {
            assert((*data)@.len() == data.len());
        }
        CopiedArray { data, dimensions }
    }

    /// Turn the array into a tuple containing its data in column-major order and its
    /// dimensions.
    pub fn splat(self) -> (r: (Box<[T]>, Dimensions))
        requires
            self.wf(),
        ensures
            (*r.0)@ == self.data_view(),
            r.1@ == self.dims_view(),
            dims_product(r.1@) == (*r.0)@.len(),
    {
        (self.data, self.dimensions)
    }

    /// Returns a reference to the element at the given n-dimensional index if the index is
    /// valid, `None` otherwise.
    pub fn get<D: Dims>(&self, idx: D) -> (r: Option<&T>)
        requires
            self.wf(),
        ensures
            r is Some <==> dims_in_bounds(self.dims_view(), idx.dims_view()),
            r matches Some(x) ==> *x == self.data_view()[linear_index(
                self.dims_view(),
                idx.dims_view(),
            )],
    {
        proof {
            if dims_in_bounds(self.dimensions@, idx.dims_view()) {
                lemma_linear_index_bound(self.dimensions@, idx.dims_view());
            }
        }
        match self.dimensions.index_of(&idx) {
            Some(i) => Some(&self.data[i]),
            None => None,
        }
    }

    /// Returns the array's data as a slice, the data is in column-major order.
    pub fn as_slice(&self) -> (r: &[T])
        ensures
            r@ == self.data_view(),
    {
        &self.data
    }

    /// Returns a mutable reference to the element at the given n-dimensional index if the
    /// index is valid, `None` otherwise.
    pub fn get_mut<D: Dims>(&mut self, idx: D) -> (r: Option<&mut T>)
        requires
            old(self).wf(),
        ensures
            final(self).wf(),
            r is Some <==> dims_in_bounds(old(self).dims_view(), idx.dims_view()),
            final(self).dims_view() == old(self).dims_view(),
            r matches Some(x) ==> {
                let k = linear_index(old(self).dims_view(), idx.dims_view());
                &&& *x == old(self).data_view()[k]
                &&& final(self).data_view() == old(self).data_view().update(k, *final(x))
            },
            r is None ==> final(self).data_view() == old(self).data_view(),
    {
        proof {
            if dims_in_bounds(self.dimensions@, idx.dims_view()) {
                lemma_linear_index_bound(self.dimensions@, idx.dims_view());
            }
        }
        match self.dimensions.index_of(&idx) {
            Some(i) => Some(&mut self.data[i]),
            None => None,
        }
    }

    /// Returns the array's data as a mutable slice, the data is in column-major order.
    pub fn as_mut_slice(&mut self) -> (r: &mut [T])
        requires
            old(self).wf(),
        ensures
            final(r)@.len() == r@.len() ==> final(self).wf(),
            r@ == old(self).data_view(),
            final(r)@ == final(self).data_view(),
            final(self).dims_view() == old(self).dims_view(),
    {
        &mut self.data
    }

    /// Returns a reference to the array's dimensions, which describe exactly the stored data.
    pub fn dimensions(&self) -> (r: &Dimensions)
        ensures
            r@ == self.dims_view(),
            self.wf() ==> dims_product(r@) == self.data_view().len(),
    {
        &self.dimensions
    }
}

/// What a read gives back of a write: after the element at an in-bounds index has been
/// replaced through [`CopiedArray::get_mut`], [`CopiedArray::get`] at that index gives the new
/// value, and at every other in-bounds index the old one.
pub proof fn lemma_write_then_read<T>(
    before: CopiedArray<T>,
    after: CopiedArray<T>,
    written: Seq<usize>,
    read: Seq<usize>,
    value: T,
)
    requires
        before.wf(),
        dims_in_bounds(before.dims_view(), written),
        dims_in_bounds(before.dims_view(), read),
        after.dims_view() == before.dims_view(),
        after.data_view() == before.data_view().update(
            linear_index(before.dims_view(), written),
            value,
        ),
    ensures
        after.wf(),
        read == written ==> after.data_view()[linear_index(after.dims_view(), read)] == value,
        read != written ==> after.data_view()[linear_index(after.dims_view(), read)]
            == before.data_view()[linear_index(before.dims_view(), read)],
{
    let dims = before.dims_view();
    lemma_linear_index_bound(dims, written);
    lemma_linear_index_bound(dims, read);
    if read != written && linear_index(dims, read) == linear_index(dims, written) {
        lemma_linear_index_injective(dims, read, written);
    }
}

} // verus!
