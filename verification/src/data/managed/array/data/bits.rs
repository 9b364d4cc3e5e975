//! Access to the elements of arrays whose elements are stored inline as `isbits` data.
use vstd::prelude::*;

use crate::data::managed::array::data::copied::CopiedArray;
use crate::data::managed::array::dimensions::{
    boxed_slice, dims_in_bounds, dims_product, lemma_linear_index_bound, linear_index,
    Dimensions, Dims, DimsOps,
};

verus! {

/// The data of an n-dimensional array whose elements are stored inline as values of the
/// `isbits` layout `L`, in column-major order.
pub struct BitsArray<L> {
    dimensions: Dimensions,
    data: Vec<L>,
}

impl<L> BitsArray<L> {
    /// The array's elements in column-major order.
    pub closed spec fn data_view(&self) -> Seq<L> {
        self.data@
    }

    /// The number of elements of each dimension of the array.
    pub closed spec fn dims_view(&self) -> Seq<usize> {
        self.dimensions@
    }

    /// The dimensions describe exactly as many elements as the array holds.
    pub open spec fn wf(&self) -> bool {
        dims_product(self.dims_view()) == self.data_view().len()
    }

    /// Creates the data of an array from its elements in column-major order and its dimensions,
    /// which must describe exactly as many elements as `data` holds.
    pub fn new(data: Vec<L>, dimensions: Dimensions) -> (r: Self)
        requires
            dims_product(dimensions@) == data@.len(),
        ensures
            r.wf(),
            r.data_view() == data@,
            r.dims_view() == dimensions@,
    {
        BitsArray { dimensions, data }
    }

    /// Returns the dimensions of the array.
    pub fn dimensions(&self) -> (r: &Dimensions)
        ensures
            r@ == self.dims_view(),
    {
        &self.dimensions
    }

    /// Returns a reference to the element at `index` if `index` is in bounds, `None`
    /// otherwise.
    pub fn get<D: Dims>(&self, index: D) -> (r: Option<&L>)
        requires
            self.wf(),
        ensures
            r is Some <==> dims_in_bounds(self.dims_view(), index.dims_view()),
            r matches Some(x) ==> *x == self.data_view()[linear_index(
                self.dims_view(),
                index.dims_view(),
            )],
    {
        proof {
            assert(self.data@.len() == self.data.len());
            if dims_in_bounds(self.dimensions@, index.dims_view()) {
                lemma_linear_index_bound(self.dimensions@, index.dims_view());
            }
        }
        match self.dimensions.index_of(&index) {
            Some(i) => Some(&self.data[i]),
            None => None,
        }
    }

    /// Returns a reference to the element at `index`, which must be in bounds.
    pub fn get_unchecked<D: Dims>(&self, index: D) -> (r: &L)
        requires
            self.wf(),
            dims_in_bounds(self.dims_view(), index.dims_view()),
        ensures
            *r == self.data_view()[linear_index(self.dims_view(), index.dims_view())],
    {
        proof {
            assert(self.data@.len() == self.data.len());
            lemma_linear_index_bound(self.dimensions@, index.dims_view());
        }
        let i = self.dimensions.index_of_unchecked(&index);
        &self.data[i]
    }

    /// Returns the array's elements as a slice, in column-major order.
    pub fn as_slice(&self) -> (r: &[L])
        ensures
            r@ == self.data_view(),
    {
        self.data.as_slice()
    }

    /// Returns a mutable reference to the element at `index` if `index` is in bounds, `None`
    /// otherwise.
    pub fn get_mut<D: Dims>(&mut self, index: D) -> (r: Option<&mut L>)
        requires
            old(self).wf(),
        ensures
            final(self).wf(),
            r is Some <==> dims_in_bounds(old(self).dims_view(), index.dims_view()),
            final(self).dims_view() == old(self).dims_view(),
            r matches Some(x) ==> {
                let k = linear_index(old(self).dims_view(), index.dims_view());
                &&& *x == old(self).data_view()[k]
                &&& final(self).data_view() == old(self).data_view().update(k, *final(x))
            },
            r is None ==> final(self).data_view() == old(self).data_view(),
    {
        proof {
            assert(self.data@.len() == self.data.len());
            if dims_in_bounds(self.dimensions@, index.dims_view()) {
                lemma_linear_index_bound(self.dimensions@, index.dims_view());
            }
        }
        match self.dimensions.index_of(&index) {
            Some(i) => Some(&mut self.data[i]),
            None => None,
        }
    }

    /// Sets the element at `index` to `value` if `index` is in bounds, and returns `Ok(())`;
    /// otherwise `value` is given back as `Err(value)` and nothing changes.
    pub fn set<D: Dims>(&mut self, index: D, value: L) -> (r: Result<(), L>)
        requires
            old(self).wf(),
        ensures
            final(self).wf(),
            final(self).dims_view() == old(self).dims_view(),
            dims_in_bounds(old(self).dims_view(), index.dims_view()) ==> {
                &&& r is Ok
                &&& final(self).data_view() == old(self).data_view().update(
                    linear_index(old(self).dims_view(), index.dims_view()),
                    value,
                )
            },
            !dims_in_bounds(old(self).dims_view(), index.dims_view()) ==> {
                &&& r == Err::<(), L>(value)
                &&& final(self).data_view() == old(self).data_view()
            },
    {
        proof {
            assert(self.data@.len() == self.data.len());
            if dims_in_bounds(self.dimensions@, index.dims_view()) {
                lemma_linear_index_bound(self.dimensions@, index.dims_view());
            }
        }
        match self.dimensions.index_of(&index) {
            Some(i) => {
                self.data.set(i, value);
                Ok(())
            },
            None => Err(value),
        }
    }

    /// Sets the element at `index`, which must be in bounds, to `value`.
    pub fn set_unchecked<D: Dims>(&mut self, index: D, value: L)
        requires
            old(self).wf(),
            dims_in_bounds(old(self).dims_view(), index.dims_view()),
        ensures
            final(self).wf(),
            final(self).dims_view() == old(self).dims_view(),
            final(self).data_view() == old(self).data_view().update(
                linear_index(old(self).dims_view(), index.dims_view()),
                value,
            ),
    {
        proof {
            assert(self.data@.len() == self.data.len());
            lemma_linear_index_bound(self.dimensions@, index.dims_view());
        }
        let i = self.dimensions.index_of_unchecked(&index);
        self.data.set(i, value);
    }

    /// Appends `value` to the end of a vector: an array of rank 1, whose single dimension
    /// grows by one.
    pub fn push(&mut self, value: L)
        requires
            old(self).wf(),
            old(self).dims_view().len() == 1,
            old(self).data_view().len() < usize::MAX,
        ensures
            final(self).wf(),
            final(self).dims_view() == seq![(old(self).dims_view()[0] + 1) as usize],
            final(self).data_view() == old(self).data_view().push(value),
    {
        proof {
            assert(self.dimensions@.drop_last().len() == 0);
            assert(dims_product(self.dimensions@) == dims_product(self.dimensions@.drop_last())
                * self.dimensions@.last());
        }
        let n = self.data.len();
        self.data.push(value);
        let dims = Dimensions::from_dims(&(n + 1,));
        proof {
            let dv = seq![(n + 1) as usize];
            assert(dv.drop_last().len() == 0);
            assert(dims_product(dv) == dims_product(dv.drop_last()) * dv.last());
        }
        self.dimensions = dims;
    }
}

impl<L: Copy> BitsArray<L> {
    /// Copies the content of this array to a `CopiedArray`.
    pub fn to_copied_array(&self) -> (r: CopiedArray<L>)
        requires
            self.wf(),
        ensures
            r.wf(),
            r.data_view() == self.data_view(),
            r.dims_view() == self.dims_view(),
    {
        let n = self.data.len();
        let mut copy: Vec<L> = Vec::new();
        let mut i: usize = 0;
        while i < n
            invariant
                0 <= i <= n,
                n == self.data@.len(),
                copy@ == self.data@.take(i as int),
            decreases n - i,
        {
            copy.push(self.data[i]);
            i = i + 1;
            assert(copy@ =~= self.data@.take(i as int));
        }
        assert(copy@ =~= self.data@);
        CopiedArray::new(boxed_slice(copy), self.dimensions.clone())
    }

    /// Appends the elements of `values` to the end of a vector: an array of rank 1, whose
    /// single dimension grows by their number.
    pub fn extend_from_slice(&mut self, values: &[L])
        requires
            old(self).wf(),
            old(self).dims_view().len() == 1,
            old(self).data_view().len() + values@.len() < usize::MAX,
        ensures
            final(self).wf(),
            final(self).dims_view() == seq![
                (old(self).dims_view()[0] + values@.len()) as usize,
            ],
            final(self).data_view() == old(self).data_view() + values@,
    {
        let m = values.len();
        let mut j: usize = 0;
        let ghost start = self.data@;
        let ghost d0 = self.dimensions@[0];
        proof {
            assert(self.dimensions@.drop_last().len() == 0);
            assert(dims_product(self.dimensions@) == dims_product(self.dimensions@.drop_last())
                * self.dimensions@.last());
            assert(values@.take(0) =~= Seq::<L>::empty());
            assert(start + values@.take(0) =~= start);
        }
        while j < m
            invariant
                0 <= j <= m,
                m == values@.len(),
                start.len() == d0,
                start.len() + m < usize::MAX,
                self.wf(),
                self.dims_view() == seq![(d0 + j) as usize],
                self.data_view() == start + values@.take(j as int),
            decreases m - j,
        {
            self.push(values[j]);
            j = j + 1;
            assert(start + values@.take(j as int) =~= (start + values@.take(j - 1)).push(
                values@[j - 1],
            ));
        }
        assert(values@.take(m as int) =~= values@);
    }
}

/// What a read gives back of a write: after [`BitsArray::set`] has written `value` at an
/// in-bounds index, [`BitsArray::get`] at that index gives `value`, and at every other in-bounds
/// index the old element.
pub proof fn lemma_bits_set_then_get<L>(
    before: BitsArray<L>,
    after: BitsArray<L>,
    written: Seq<usize>,
    read: Seq<usize>,
    value: L,
)
    requires
        before.wf(),
        dims_in_bounds(before.dims_view(), written),
        dims_in_bounds(before.dims_view(), read),
        after.dims_view() == before.dims_view(),
        after.data_view() == before.data_view().update(
            linear_index(before.dims_view(), written),
            value,
        ),
    ensures
        after.wf(),
        read == written ==> after.data_view()[linear_index(after.dims_view(), read)] == value,
        read != written ==> after.data_view()[linear_index(after.dims_view(), read)]
            == before.data_view()[linear_index(before.dims_view(), read)],
{
    let dims = before.dims_view();
    lemma_linear_index_bound(dims, written);
    lemma_linear_index_bound(dims, read);
    if read != written && linear_index(dims, read) == linear_index(dims, written) {
        crate::data::managed::array::dimensions::lemma_linear_index_injective(dims, read, written);
    }
}

} // verus!
