//! N-dimensional indexing.
//!
//! See [`Dims`] for more information.
use vstd::prelude::*;

mod private;

use crate::data::text::{dec_chars, dec_string};

verus! {

/// The number of elements of an array with dimensions `dims`: the product of the number of
/// elements of each dimension. The product of no dimensions is 1.
pub open spec fn dims_product(dims: Seq<usize>) -> int
    decreases dims.len(),
{
    if dims.len() == 0 {
        1
    } else {
        dims_product(dims.drop_last()) * dims.last()
    }
}

/// True if multiplying the number of elements of each dimension in order, starting at the
/// first, never exceeds `usize::MAX`.
pub open spec fn size_fits(dims: Seq<usize>) -> bool {
    forall|k: int| 0 <= k <= dims.len() ==> #[trigger] dims_product(dims.take(k)) <= usize::MAX
}

/// The product of dimensions can also be taken starting at the first dimension.
pub proof fn lemma_dims_product_first(dims: Seq<usize>)
    requires
        dims.len() > 0,
    ensures
        dims_product(dims) == dims[0] * dims_product(dims.drop_first()),
    decreases dims.len(),
{
    if dims.len() == 1 {
        // Both sides are the single dimension times the empty product.
        assert(dims_product(dims.drop_last()) == 1);
        assert(dims_product(dims.drop_first()) == 1);
        assert(dims_product(dims) == dims_product(dims.drop_last()) * dims.last());
        assert(dims.last() == dims[0]);
    } else {
        lemma_dims_product_first(dims.drop_last());
        assert(dims.drop_last().drop_first() =~= dims.drop_first().drop_last());
        let a = dims[0] as int;
        let b = dims_product(dims.drop_first().drop_last());
        let c = dims.last() as int;
        assert(dims.drop_first().last() == dims.last());
        assert(dims.drop_last()[0] == dims[0]);
        assert(dims_product(dims) == dims_product(dims.drop_last()) * c);
        assert(dims_product(dims.drop_last()) == a * b);
        assert(dims_product(dims.drop_first()) == b * c);
        assert((a * b) * c == a * (b * c)) by (nonlinear_arith);
    }
}

/// True if every component of `idx` is smaller than the corresponding component of `dims`, and
/// both have the same rank.
pub open spec fn dims_in_bounds(dims: Seq<usize>, idx: Seq<usize>) -> bool {
    &&& dims.len() == idx.len()
    &&& forall|i: int| 0 <= i < dims.len() ==> #[trigger] idx[i] < #[trigger] dims[i]
}

/// The column-major linear index of the n-dimensional index `idx` in an array with dimensions
/// `dims`: `idx[0] + dims[0] * (idx[1] + dims[1] * (idx[2] + ...))`.
pub open spec fn linear_index(dims: Seq<usize>, idx: Seq<usize>) -> int
    decreases dims.len(),
{
    if dims.len() == 0 {
        0
    } else {
        idx[0] + dims[0] * linear_index(dims.drop_first(), idx.drop_first())
    }
}

/// The result of [`Dims::index_of`]: `None` if the ranks differ or the index is out of bounds,
/// otherwise the column-major linear index.
pub open spec fn spec_index_of(dims: Seq<usize>, idx: Seq<usize>) -> Option<usize> {
    if dims.len() != idx.len() {
        None
    } else if !dims_in_bounds(dims, idx) {
        None
    } else {
        Some(linear_index(dims, idx) as usize)
    }
}

/// True if computing the linear index of `idx` in `dims` does not overflow a `usize`.
pub open spec fn index_fits(dims: Seq<usize>, idx: Seq<usize>) -> bool {
    dims_in_bounds(dims, idx) ==> linear_index(dims, idx) <= usize::MAX
}

/// The unchecked linear index agrees with the checked one: where [`DimsOps::index_of`] returns
/// `Some(i)`, the index is in bounds, so [`DimsOps::index_of_unchecked`] may be called, and its
/// result, the linear index, is `i`.
pub proof fn lemma_index_of_unchecked_agrees(dims: Seq<usize>, idx: Seq<usize>, i: usize)
    requires
        index_fits(dims, idx),
        spec_index_of(dims, idx) == Some(i),
    ensures
        dims_in_bounds(dims, idx),
        linear_index(dims, idx) <= usize::MAX,
        linear_index(dims, idx) == i,
{
    lemma_linear_index_nonneg(dims, idx);
}

/// The index whose components are all zero is the first position of an array's data.
pub proof fn lemma_linear_index_zero(dims: Seq<usize>)
    ensures
        linear_index(dims, Seq::new(dims.len(), |i: int| 0usize)) == 0,
    decreases dims.len(),
{
    if dims.len() > 0 {
        let zeros = Seq::new(dims.len(), |i: int| 0usize);
        assert(zeros.drop_first() =~= Seq::new(dims.drop_first().len(), |i: int| 0usize));
        lemma_linear_index_zero(dims.drop_first());
    }
}

/// Column-major order: moving one step along dimension `d` moves the linear index by the
/// number of elements of the dimensions before `d`, so by one along the first dimension.
pub proof fn lemma_linear_index_step(dims: Seq<usize>, idx: Seq<usize>, d: int)
    requires
        dims_in_bounds(dims, idx),
        0 <= d < dims.len(),
        idx[d] + 1 < dims[d],
    ensures
        linear_index(dims, idx.update(d, (idx[d] + 1) as usize)) == linear_index(dims, idx)
            + dims_product(dims.take(d)),
    decreases dims.len(),
{
    let next = idx.update(d, (idx[d] + 1) as usize);
    let rest_dims = dims.drop_first();
    if d == 0 {
        assert(next.drop_first() =~= idx.drop_first());
        assert(dims.take(0) =~= Seq::<usize>::empty());
    } else {
        let rest_idx = idx.drop_first();
        assert(next.drop_first() =~= rest_idx.update(d - 1, (rest_idx[d - 1] + 1) as usize));
        assert(dims_in_bounds(rest_dims, rest_idx));
        lemma_linear_index_step(rest_dims, rest_idx, d - 1);
        let t = dims.take(d);
        lemma_dims_product_first(t);
        assert(t.drop_first() =~= rest_dims.take(d - 1));
        let a = dims[0] as int;
        let l = linear_index(rest_dims, rest_idx);
        let p = dims_product(rest_dims.take(d - 1));
        assert(a * (l + p) == a * l + a * p) by (nonlinear_arith);
    }
}

/// A linear index is never negative.
pub proof fn lemma_linear_index_nonneg(dims: Seq<usize>, idx: Seq<usize>)
    requires
        dims.len() <= idx.len(),
    ensures
        linear_index(dims, idx) >= 0,
    decreases dims.len(),
{
    if dims.len() > 0 {
        lemma_linear_index_nonneg(dims.drop_first(), idx.drop_first());
        let rest = linear_index(dims.drop_first(), idx.drop_first());
        let d = dims[0] as int;
        assert(d * rest >= 0) by (nonlinear_arith)
            requires
                d >= 0,
                rest >= 0,
        ;
    }
}

/// The product of dimensions is never negative.
pub proof fn lemma_dims_product_nonneg(dims: Seq<usize>)
    ensures
        dims_product(dims) >= 0,
    decreases dims.len(),
{
    if dims.len() > 0 {
        lemma_dims_product_nonneg(dims.drop_last());
        let rest = dims_product(dims.drop_last());
        let d = dims[0] as int;
        assert(d * rest >= 0) by (nonlinear_arith)
            requires
                d >= 0,
                rest >= 0,
        ;
    }
}

/// Every in-bounds index has a linear index smaller than the number of elements.
pub proof fn lemma_linear_index_bound(dims: Seq<usize>, idx: Seq<usize>)
    requires
        dims_in_bounds(dims, idx),
    ensures
        0 <= linear_index(dims, idx) < dims_product(dims),
    decreases dims.len(),
{
    if dims.len() > 0 {
        let d2 = dims.drop_first();
        let i2 = idx.drop_first();
        assert(dims_in_bounds(d2, i2)) by {
            assert forall|i: int| 0 <= i < d2.len() implies #[trigger] i2[i] < #[trigger] d2[i] by {
                assert(i2[i] == idx[i + 1]);
                assert(d2[i] == dims[i + 1]);
            }
        }
        lemma_linear_index_bound(d2, i2);
        lemma_dims_product_first(dims);
        let rest = linear_index(d2, i2);
        let p = dims_product(d2);
        let d = dims[0] as int;
        let x = idx[0] as int;
        assert(0 <= x < d);
        assert(0 <= x + d * rest < d * p) by (nonlinear_arith)
            requires
                0 <= x < d,
                0 <= rest < p,
        ;
    }
}

/// The linear index of a suffix of an in-bounds index is at most the linear index of the whole.
proof fn lemma_linear_index_suffix(dims: Seq<usize>, idx: Seq<usize>, k: int)
    requires
        dims_in_bounds(dims, idx),
        0 <= k <= dims.len(),
    ensures
        0 <= linear_index(dims.subrange(k, dims.len() as int), idx.subrange(k, idx.len() as int))
            <= linear_index(dims, idx),
    decreases k,
{
    let n = dims.len() as int;
    lemma_linear_index_nonneg(dims.subrange(k, n), idx.subrange(k, n));
    if k == 0 {
        assert(dims.subrange(0, n) =~= dims);
        assert(idx.subrange(0, n) =~= idx);
    } else {
        lemma_linear_index_suffix(dims, idx, k - 1);
        let ds = dims.subrange(k - 1, n);
        let is = idx.subrange(k - 1, n);
        assert(ds.drop_first() =~= dims.subrange(k, n));
        assert(is.drop_first() =~= idx.subrange(k, n));
        let rest = linear_index(dims.subrange(k, n), idx.subrange(k, n));
        let d = dims[k - 1] as int;
        let x = idx[k - 1] as int;
        assert(x < d);
        assert(rest <= x + d * rest) by (nonlinear_arith)
            requires
                0 <= x < d,
                0 <= rest,
        ;
    }
}


/// Column-major indexing is one-to-one: two in-bounds indices with the same linear index are
/// the same index.
pub proof fn lemma_linear_index_injective(dims: Seq<usize>, i: Seq<usize>, j: Seq<usize>)
    requires
        dims_in_bounds(dims, i),
        dims_in_bounds(dims, j),
        linear_index(dims, i) == linear_index(dims, j),
    ensures
        i == j,
    decreases dims.len(),
{
    if dims.len() == 0 {
        assert(i =~= j);
    } else {
        let d2 = dims.drop_first();
        let i2 = i.drop_first();
        let j2 = j.drop_first();
        assert(dims_in_bounds(d2, i2)) by {
            assert forall|k: int| 0 <= k < d2.len() implies #[trigger] i2[k] < #[trigger] d2[k] by {
                assert(i2[k] == i[k + 1]);
                assert(d2[k] == dims[k + 1]);
            }
        }
        assert(dims_in_bounds(d2, j2)) by {
            assert forall|k: int| 0 <= k < d2.len() implies #[trigger] j2[k] < #[trigger] d2[k] by {
                assert(j2[k] == j[k + 1]);
                assert(d2[k] == dims[k + 1]);
            }
        }
        lemma_linear_index_nonneg(d2, i2);
        lemma_linear_index_nonneg(d2, j2);
        let p = linear_index(d2, i2);
        let q = linear_index(d2, j2);
        let d = dims[0] as int;
        let x = i[0] as int;
        let y = j[0] as int;
        assert(x < d && y < d);
        assert(x + d * p == y + d * q);
        assert(p == q && x == y) by (nonlinear_arith)
            requires
                0 <= x < d,
                0 <= y < d,
                0 <= p,
                0 <= q,
                x + d * p == y + d * q,
        {
            if p < q {
                assert(d * p + d <= d * q);
            } else if q < p {
                assert(d * q + d <= d * p);
            }
        }
        lemma_linear_index_injective(d2, i2, j2);
        assert(i =~= j) by {
            assert forall|k: int| 0 <= k < i.len() implies i[k] == j[k] by {
                if k > 0 {
                    assert(i[k] == i2[k - 1]);
                    assert(j[k] == j2[k - 1]);
                }
            }
        }
    }
}

/// Column-major indexing is onto: every position `k` in an array's data, `0 <= k < size`, is
/// the linear index of some in-bounds n-dimensional index.
pub proof fn lemma_linear_index_surjective(dims: Seq<usize>, k: int) -> (idx: Seq<usize>)
    requires
        0 <= k < dims_product(dims),
    ensures
        dims_in_bounds(dims, idx),
        linear_index(dims, idx) == k,
    decreases dims.len(),
{
    if dims.len() == 0 {
        Seq::empty()
    } else {
        lemma_dims_product_first(dims);
        let d2 = dims.drop_first();
        let p = dims_product(d2);
        lemma_dims_product_nonneg(d2);
        let d = dims[0] as int;
        assert(d > 0 && p > 0) by (nonlinear_arith)
            requires
                0 <= k < d * p,
                d >= 0,
                p >= 0,
        ;
        vstd::arithmetic::div_mod::lemma_fundamental_div_mod(k, d);
        vstd::arithmetic::div_mod::lemma_mod_pos_bound(k, d);
        let q = k / d;
        let r = k % d;
        assert(0 <= q < p) by (nonlinear_arith)
            requires
                k == d * q + r,
                0 <= r < d,
                0 <= k < d * p,
        ;
        let rest = lemma_linear_index_surjective(d2, q);
        let idx = seq![r as usize] + rest;
        assert(idx.drop_first() =~= rest);
        assert(dims_in_bounds(dims, idx)) by {
            assert forall|m: int| 0 <= m < dims.len() implies #[trigger] idx[m] < #[trigger] dims[m] by {
                if m > 0 {
                    assert(idx[m] == rest[m - 1]);
                    assert(dims[m] == d2[m - 1]);
                }
            }
        }
        idx
    }
}

/// The linear index of an in-bounds index, as computed by [`Dims::index_of`], is a position
/// in the array's data: it is smaller than the array's size.
pub proof fn lemma_index_of_in_range(dims: Seq<usize>, idx: Seq<usize>)
    requires
        index_fits(dims, idx),
    ensures
        spec_index_of(dims, idx) matches Some(k) ==> linear_index(dims, idx) == k
            && k < dims_product(dims),
        spec_index_of(dims, idx) is Some <==> dims_in_bounds(dims, idx),
{
    if dims_in_bounds(dims, idx) {
        lemma_linear_index_bound(dims, idx);
    }
}

/// Computes the linear index of an in-bounds index of rank `n >= 1` with a fold that starts at
/// the last dimension and works towards the first.
fn linear_index_exec<A: Dims, B: Dims>(dims: &A, dim_index: &B, n: usize) -> (r: usize)
    requires
        n >= 1,
        n == dims.dims_view().len(),
        dims_in_bounds(dims.dims_view(), dim_index.dims_view()),
        linear_index(dims.dims_view(), dim_index.dims_view()) <= usize::MAX,
    ensures
        r == linear_index(dims.dims_view(), dim_index.dims_view()),
{
    let ghost dv = dims.dims_view();
    let ghost iv = dim_index.dims_view();
    let mut acc = dim_index.n_elements_unchecked(n - 1);
    let mut k: usize = n - 1;
    proof {
        let ds = dv.subrange(k as int, n as int);
        let is = iv.subrange(k as int, n as int);
        assert(ds.drop_first().len() == 0);
        assert(linear_index(ds.drop_first(), is.drop_first()) == 0);
        assert(linear_index(ds, is) == is[0] + ds[0] * 0);
    }
    while k > 0
        invariant
            0 <= k < n,
            n == dv.len(),
            dv == dims.dims_view(),
            iv == dim_index.dims_view(),
            dims_in_bounds(dv, iv),
            linear_index(dv, iv) <= usize::MAX,
            acc == linear_index(dv.subrange(k as int, n as int), iv.subrange(k as int, n as int)),
        decreases k,
    {
        let ghost old_k = k;
        k = k - 1;
        let d = dims.n_elements_unchecked(k);
        let x = dim_index.n_elements_unchecked(k);
        proof {
            lemma_linear_index_suffix(dv, iv, k as int);
            let ds = dv.subrange(k as int, n as int);
            let is = iv.subrange(k as int, n as int);
            assert(ds.drop_first() =~= dv.subrange(old_k as int, n as int));
            assert(is.drop_first() =~= iv.subrange(old_k as int, n as int));
            assert(ds[0] == d);
            assert(is[0] == x);
            assert(linear_index(ds, is) == x + d * acc);
            assert(x + d * acc == acc * d + x) by (nonlinear_arith);
        }
        acc = acc * d + x;
    }
    proof {
        assert(dv.subrange(0, n as int) =~= dv);
        assert(iv.subrange(0, n as int) =~= iv);
    }
    acc
}

/// Trait implemented by n-dimensional indices.
///
/// Instances of types that implement this trait can be used to index into n-dimensional
/// arrays. Indexing starts at 0, and the data of an array is stored in column-major order.
///
/// When indexing into an array, the rank of the index must match the rank of the array.
///
/// The following index types have a known rank: `usize` (rank 1), `()`, `(usize,)`, ...,
/// `(usize, usize, usize, usize)` (rank 0..=4), `[usize; N]` and `&[usize; N]` (rank `N`). The
/// rank of `&[usize]`, [`ArrayDimensions`] and [`Dimensions`] is only known at runtime.
///
/// Implementations provide `RANK`, `SlicingType`, `to_slicer`, `rank` and
/// `n_elements_unchecked`; the operations built on them are provided by [`DimsOps`] for every
/// implementation.
pub trait Dims: Sized {
    /// The rank of `Self` if `RANK >= 0`, or `-1` if the rank is not known in advance.
    const RANK: isize;

    /// This constant is `true` if the rank of these dimensions is unknown in advance, i.e. if
    /// `Self::RANK == -1`.
    const UNKNOWN_RANK: bool = Self::RANK == -1;

    /// A type that can express these dimensions as a contiguous slice.
    type SlicingType: DimSlice;

    /// The number of elements of each dimension.
    spec fn dims_view(&self) -> Seq<usize>;

    /// Returns the rank of `self`.
    fn rank(&self) -> (r: usize)
        ensures
            r == self.dims_view().len(),
    ;

    /// Returns the number of elements of the nth dimension; the dimension must be in bounds.
    fn n_elements_unchecked(&self, dimension: usize) -> (n: usize)
        requires
            dimension < self.dims_view().len(),
        ensures
            n == self.dims_view()[dimension as int],
    ;

    /// Convert `self` to a type that can be sliced.
    fn to_slicer(&self) -> (r: Self::SlicingType)
        ensures
            r.slice_view() == self.dims_view(),
    ;
}

/// Operations provided for every implementation of [`Dims`].
pub trait DimsOps: Dims {
    /// Convert `self` to `Dimensions`.
    fn to_dimensions(&self) -> (r: Dimensions)
        requires
            self.dims_view().len() < usize::MAX,
        ensures
            r@ == self.dims_view(),
    {
        Dimensions::from_dims(self)
    }

    /// Calculate the linear index for `dim_index` in an array with dimensions `self`.
    ///
    /// Returns `None` if the ranks differ or if the index is out of bounds. The index is in
    /// column-major order.
    fn index_of<D: Dims>(&self, dim_index: &D) -> (r: Option<usize>)
        requires
            index_fits(self.dims_view(), dim_index.dims_view()),
        ensures
            r == spec_index_of(self.dims_view(), dim_index.dims_view()),
    {
        let n_dims = self.rank();
        if n_dims != dim_index.rank() {
            return None;
        }
        if n_dims == 0 {
            return Some(0);
        }
        let mut dim: usize = 0;
        while dim < n_dims
            invariant
                0 <= dim <= n_dims,
                n_dims == self.dims_view().len(),
                n_dims == dim_index.dims_view().len(),
                forall|i: int|
                    0 <= i < dim ==> #[trigger] dim_index.dims_view()[i]
                        < #[trigger] self.dims_view()[i],
            decreases n_dims - dim,
        {
            if self.n_elements_unchecked(dim) <= dim_index.n_elements_unchecked(dim) {
                return None;
            }
            dim = dim + 1;
        }
        Some(linear_index_exec(self, dim_index, n_dims))
    }

    /// Calculate the linear index for `dim_index` in an array with dimensions `self` without
    /// checking any bounds: `dim_index` must be in bounds of `self`.
    fn index_of_unchecked<D: Dims>(&self, dim_index: &D) -> (r: usize)
        requires
            dims_in_bounds(self.dims_view(), dim_index.dims_view()),
            linear_index(self.dims_view(), dim_index.dims_view()) <= usize::MAX,
        ensures
            r == linear_index(self.dims_view(), dim_index.dims_view()),
    {
        let rank = self.rank();
        if rank == 0 {
            return 0;
        }
        linear_index_exec(self, dim_index, rank)
    }

    /// Returns the number of elements of the nth dimension. Indexing starts at 0.
    ///
    /// Returns `None` if the dimension is out of bounds, except that the dimension 0 of rank-0
    /// dimensions has 0 elements.
    fn n_elements(&self, dimension: usize) -> (r: Option<usize>)
        ensures
            r == (if dimension < self.dims_view().len() {
                Some(self.dims_view()[dimension as int])
            } else if dimension == 0 {
                Some(0usize)
            } else {
                None
            }),
    {
        if dimension >= self.rank() {
            if dimension == 0 {
                return Some(0);
            }
            return None;
        }
        Some(self.n_elements_unchecked(dimension))
    }

    /// The total number of elements in the array, i.e. the product of the number of elements
    /// of each dimension.
    fn size(&self) -> (r: usize)
        requires
            size_fits(self.dims_view()),
        ensures
            r == dims_product(self.dims_view()),
    {
        let n = self.rank();
        let ghost dv = self.dims_view();
        let mut prod: usize = 1;
        let mut i: usize = 0;
        proof {
            assert(dv.take(0).len() == 0);
        }
        while i < n
            invariant
                0 <= i <= n,
                n == dv.len(),
                dv == self.dims_view(),
                size_fits(dv),
                prod == dims_product(dv.take(i as int)),
            decreases n - i,
        {
            proof {
                assert(dv.take(i + 1).drop_last() =~= dv.take(i as int));
                assert(dims_product(dv.take(i + 1)) <= usize::MAX);
            }
            let d = self.n_elements_unchecked(i);
            prod = prod * d;
            i = i + 1;
        }
        proof {
            assert(dv.take(n as int) =~= dv);
        }
        prod
    }

}

impl<T: Dims> DimsOps for T {}


/// Trait used to convert instances of implementations of `Dims` to a slice.
///
/// The trait method [`Dims::to_slicer`] returns instances of implementations of this trait.
pub trait DimSlice {
    /// The elements of the slice.
    spec fn slice_view(&self) -> Seq<usize>;

    /// Convert `self` to a slice.
    fn as_slice(&self) -> (r: &[usize])
        ensures
            r@ == self.slice_view(),
    ;
}

impl DimSlice for () {
    open spec fn slice_view(&self) -> Seq<usize> {
        Seq::empty()
    }

    fn as_slice(&self) -> (r: &[usize]) {
        let empty: &[usize; 0] = &[];
        empty.as_slice()
    }
}

impl<const N: usize> DimSlice for [usize; N] {
    open spec fn slice_view(&self) -> Seq<usize> {
        self@
    }

    fn as_slice(&self) -> (r: &[usize]) {
        <[usize; N]>::as_slice(self)
    }
}

impl<'a, const N: usize> DimSlice for &'a [usize; N] {
    open spec fn slice_view(&self) -> Seq<usize> {
        (**self)@
    }

    fn as_slice(&self) -> (r: &[usize]) {
        <[usize; N]>::as_slice(*self)
    }
}

impl<'a> DimSlice for &'a [usize] {
    open spec fn slice_view(&self) -> Seq<usize> {
        (**self)@
    }

    fn as_slice(&self) -> (r: &[usize]) {
        *self
    }
}

impl DimSlice for Dimensions {
    open spec fn slice_view(&self) -> Seq<usize> {
        self@
    }

    fn as_slice(&self) -> (r: &[usize]) {
        Dimensions::as_slice(self)
    }
}

impl Dims for usize {
    const RANK: isize = 1;

    type SlicingType = [usize; 1];

    open spec fn dims_view(&self) -> Seq<usize> {
        seq![*self]
    }

    fn to_slicer(&self) -> (r: Self::SlicingType) {
        let r = [*self];
        assert(r@ =~= seq![*self]);
        r
    }

    fn rank(&self) -> (r: usize) {
        1
    }

    fn n_elements_unchecked(&self, _dimension: usize) -> (n: usize) {
        *self
    }
}

impl Dims for () {
    const RANK: isize = 0;

    type SlicingType = ();

    open spec fn dims_view(&self) -> Seq<usize> {
        Seq::empty()
    }

    fn to_slicer(&self) -> (r: Self::SlicingType) {
        *self
    }

    fn rank(&self) -> (r: usize) {
        0
    }

    fn n_elements_unchecked(&self, _dimension: usize) -> (n: usize) {
        0
    }
}

impl Dims for (usize,) {
    const RANK: isize = 1;

    type SlicingType = [usize; 1];

    open spec fn dims_view(&self) -> Seq<usize> {
        seq![self.0]
    }

    fn to_slicer(&self) -> (r: Self::SlicingType) {
        let r = [self.0];
        assert(r@ =~= seq![self.0]);
        r
    }

    fn rank(&self) -> (r: usize) {
        1
    }

    fn n_elements_unchecked(&self, _dimension: usize) -> (n: usize) {
        self.0
    }
}

impl Dims for (usize, usize) {
    const RANK: isize = 2;

    type SlicingType = [usize; 2];

    open spec fn dims_view(&self) -> Seq<usize> {
        seq![self.0, self.1]
    }

    fn to_slicer(&self) -> (r: Self::SlicingType) {
        let r = [self.0, self.1];
        assert(r@ =~= seq![self.0, self.1]);
        r
    }

    fn rank(&self) -> (r: usize) {
        2
    }

    fn n_elements_unchecked(&self, dimension: usize) -> (n: usize) {
        if dimension == 0 {
            self.0
        } else {
            self.1
        }
    }
}

impl Dims for (usize, usize, usize) {
    const RANK: isize = 3;

    type SlicingType = [usize; 3];

    open spec fn dims_view(&self) -> Seq<usize> {
        seq![self.0, self.1, self.2]
    }

    fn to_slicer(&self) -> (r: Self::SlicingType) {
        let r = [self.0, self.1, self.2];
        assert(r@ =~= seq![self.0, self.1, self.2]);
        r
    }

    fn rank(&self) -> (r: usize) {
        3
    }

    fn n_elements_unchecked(&self, dimension: usize) -> (n: usize) {
        match dimension {
            0 => self.0,
            1 => self.1,
            _ => self.2,
        }
    }
}

impl Dims for (usize, usize, usize, usize) {
    const RANK: isize = 4;

    type SlicingType = [usize; 4];

    open spec fn dims_view(&self) -> Seq<usize> {
        seq![self.0, self.1, self.2, self.3]
    }

    fn to_slicer(&self) -> (r: Self::SlicingType) {
        let r = [self.0, self.1, self.2, self.3];
        assert(r@ =~= seq![self.0, self.1, self.2, self.3]);
        r
    }

    fn rank(&self) -> (r: usize) {
        4
    }

    fn n_elements_unchecked(&self, dimension: usize) -> (n: usize) {
        match dimension {
            0 => self.0,
            1 => self.1,
            2 => self.2,
            _ => self.3,
        }
    }
}

impl<const N: usize> Dims for [usize; N] {
    const RANK: isize = N as isize;

    type SlicingType = [usize; N];

    open spec fn dims_view(&self) -> Seq<usize> {
        self@
    }

    fn to_slicer(&self) -> (r: Self::SlicingType) {
        *self
    }

    fn rank(&self) -> (r: usize) {
        N
    }

    fn n_elements_unchecked(&self, dimension: usize) -> (n: usize) {
        self[dimension]
    }
}

impl<'a, const N: usize> Dims for &'a [usize; N] {
    const RANK: isize = N as isize;

    type SlicingType = &'a [usize; N];

    open spec fn dims_view(&self) -> Seq<usize> {
        (**self)@
    }

    fn to_slicer(&self) -> (r: Self::SlicingType) {
        *self
    }

    fn rank(&self) -> (r: usize) {
        N
    }

    fn n_elements_unchecked(&self, dimension: usize) -> (n: usize) {
        self[dimension]
    }
}

impl<'a> Dims for &'a [usize] {
    const RANK: isize = -1;

    type SlicingType = &'a [usize];

    open spec fn dims_view(&self) -> Seq<usize> {
        (**self)@
    }

    fn to_slicer(&self) -> (r: Self::SlicingType) {
        *self
    }

    fn rank(&self) -> (r: usize) {
        self.len()
    }

    fn n_elements_unchecked(&self, dimension: usize) -> (n: usize) {
        self[dimension]
    }
}

/// Reference to the dimensions of an array.
pub struct ArrayDimensions<'borrow> {
    dims: &'borrow [usize],
}

impl<'borrow> View for ArrayDimensions<'borrow> {
    type V = Seq<usize>;

    closed spec fn view(&self) -> Seq<usize> {
        self.dims@
    }
}

impl<'borrow> ArrayDimensions<'borrow> {
    /// Wraps the number of elements of each dimension of an array.
    pub fn new(dims: &'borrow [usize]) -> (r: Self)
        ensures
            r@ == dims@,
    {
        ArrayDimensions { dims }
    }

    /// Returns the number of elements of each dimension.
    pub fn as_slice(&self) -> (r: &[usize])
        ensures
            r@ == self@,
    {
        self.dims
    }
}

impl<'borrow> Dims for ArrayDimensions<'borrow> {
    const RANK: isize = -1;

    type SlicingType = &'borrow [usize];

    open spec fn dims_view(&self) -> Seq<usize> {
        self@
    }

    fn to_slicer(&self) -> (r: Self::SlicingType) {
        self.dims
    }

    fn rank(&self) -> (r: usize) {
        self.as_slice().len()
    }

    fn n_elements_unchecked(&self, dimension: usize) -> (n: usize) {
        self.as_slice()[dimension]
    }
}

/// How [`Dimensions`] stores the number of elements of each dimension: up to three dimensions
/// inline, after their count, or any number of them on the heap, after their count.
enum DimsRepr {
    Few([usize; 4]),
    Many(Box<[usize]>),
}

/// The dimensions of an n-dimensional array that has been copied from Julia to Rust.
pub struct Dimensions {
    repr: DimsRepr,
}

/// How [`Dimensions`] lays out `dims`: their count, then the number of elements of each, and for
/// up to three dimensions zeros up to four entries.
pub open spec fn dims_layout(dims: Seq<usize>) -> Seq<usize> {
    let head = seq![dims.len() as usize] + dims;
    if dims.len() <= 3 {
        head + Seq::new((3 - dims.len()) as nat, |i: int| 0usize)
    } else {
        head
    }
}

/// The layout of dimensions starts with their count, then holds the number of elements of each
/// in order; up to three dimensions are padded with zeros to four entries, more are not padded.
pub proof fn lemma_dims_layout(dims: Seq<usize>)
    requires
        dims.len() <= usize::MAX,
    ensures
        dims_layout(dims)[0] == dims.len(),
        dims_layout(dims).subrange(1, dims.len() as int + 1) == dims,
        dims.len() <= 3 ==> dims_layout(dims).len() == 4,
        dims.len() > 3 ==> dims_layout(dims).len() == dims.len() + 1,
        forall|k: int| dims.len() < k < dims_layout(dims).len() ==> #[trigger] dims_layout(dims)[k]
            == 0,
{
    assert(dims_layout(dims).subrange(1, dims.len() as int + 1) =~= dims);
}

impl View for Dimensions {
    type V = Seq<usize>;

    closed spec fn view(&self) -> Seq<usize> {
        match self.repr {
            DimsRepr::Few(v) => v@.subrange(1, v[0] + 1),
            DimsRepr::Many(v) => (*v)@.subrange(1, (*v)@.len() as int),
        }
    }
}

/// `Vec::into_boxed_slice`: the boxed slice holds the elements of the vector, in order.
#[verifier::external_body]
pub(crate) fn boxed_slice<T>(v: Vec<T>) -> (r: Box<[T]>)
    ensures
        (*r)@ == v@,
{
    v.into_boxed_slice()
}

impl Dimensions {
    #[verifier::type_invariant]
    spec fn well_formed(self) -> bool {
        &&& self.layout() == dims_layout(self@)
        &&& self.inline() == (self@.len() <= 3)
        &&& self@.len() < usize::MAX
    }

    /// The entries that hold the dimensions: their count, then the number of elements of each.
    pub closed spec fn layout(&self) -> Seq<usize> {
        match self.repr {
            DimsRepr::Few(v) => v@,
            DimsRepr::Many(v) => (*v)@,
        }
    }

    /// Whether the dimensions are stored inline rather than on the heap.
    pub closed spec fn inline(&self) -> bool {
        self.repr is Few
    }

    /// Convert an implementation of `Dims` to `Dimensions`.
    pub fn from_dims<D: Dims>(dims: &D) -> (r: Self)
        requires
            dims.dims_view().len() < usize::MAX,
        ensures
            r@ == dims.dims_view(),
            r.layout() == dims_layout(dims.dims_view()),
            r.inline() == (dims.dims_view().len() <= 3),
    {
        let n = dims.rank();
        let ghost dv = dims.dims_view();
        if n == 0 {
            let a: [usize; 4] = [0, 0, 0, 0];
            assert(a@ =~= dims_layout(dv));
            assert(a@.subrange(1, a[0] + 1) =~= dv);
            Dimensions { repr: DimsRepr::Few(a) }
        } else if n == 1 {
            let a: [usize; 4] = [1, dims.n_elements_unchecked(0), 0, 0];
            assert(a@ =~= dims_layout(dv));
            assert(a@.subrange(1, a[0] + 1) =~= dv);
            Dimensions { repr: DimsRepr::Few(a) }
        } else if n == 2 {
            let a: [usize; 4] = [2, dims.n_elements_unchecked(0), dims.n_elements_unchecked(1), 0];
            assert(a@ =~= dims_layout(dv));
            assert(a@.subrange(1, a[0] + 1) =~= dv);
            Dimensions { repr: DimsRepr::Few(a) }
        } else if n == 3 {
            let a: [usize; 4] = [
                3,
                dims.n_elements_unchecked(0),
                dims.n_elements_unchecked(1),
                dims.n_elements_unchecked(2),
            ];
            assert(a@ =~= dims_layout(dv));
            assert(a@.subrange(1, a[0] + 1) =~= dv);
            Dimensions { repr: DimsRepr::Few(a) }
        } else {
            let mut v: Vec<usize> = Vec::with_capacity(n + 1);
            v.push(n);
            let mut dim: usize = 0;
            while dim < n
                invariant
                    0 <= dim <= n,
                    n == dv.len(),
                    dv == dims.dims_view(),
                    v@.len() == dim + 1,
                    v@[0] == n,
                    v@.subrange(1, dim + 1) =~= dv.take(dim as int),
                decreases n - dim,
            {
                let d = dims.n_elements_unchecked(dim);
                v.push(d);
                dim = dim + 1;
                assert(v@.subrange(1, dim + 1) =~= dv.take(dim as int));
            }
            assert(dv.take(n as int) =~= dv);
            assert(v@ =~= seq![n] + v@.subrange(1, n + 1));
            assert(v@ =~= dims_layout(dv));
            let b = boxed_slice(v);
            assert((*b)@.subrange(1, (*b)@.len() as int) =~= dv);
            Dimensions { repr: DimsRepr::Many(b) }
        }
    }

    /// Returns the dimensions as a slice. The entries that hold them start with their count, so
    /// the slice is the entries after it.
    pub fn as_slice(&self) -> (r: &[usize])
        ensures
            r@ == self@,
            r@.len() < usize::MAX,
            self.layout() == dims_layout(self@),
            self.inline() == (self@.len() <= 3),
    {
        proof {
            use_type_invariant(self);
        }
        match &self.repr {
            DimsRepr::Few(v) => {
                let n = v[0] + 1;
                let s = v.as_slice();
                &s[1..n]
            },
            DimsRepr::Many(v) => {
                let s: &[usize] = &**v;
                &s[1..s.len()]
            },
        }
    }
}

impl Clone for Dimensions {
    fn clone(&self) -> (r: Self)
        ensures
            r@ == self@,
    {
        let s = self.as_slice();
        Dimensions::from_dims(&s)
    }
}

impl Dims for Dimensions {
    const RANK: isize = -1;

    type SlicingType = Dimensions;

    open spec fn dims_view(&self) -> Seq<usize> {
        self@
    }

    fn to_slicer(&self) -> (r: Self::SlicingType) {
        self.clone()
    }

    fn rank(&self) -> (r: usize) {
        self.as_slice().len()
    }

    fn n_elements_unchecked(&self, dimension: usize) -> (n: usize) {
        self.as_slice()[dimension]
    }
}



/// The number of elements of each dimension in decimal, separated by `, `.
pub open spec fn dims_list_chars(dims: Seq<usize>) -> Seq<char>
    decreases dims.len(),
{
    if dims.len() == 0 {
        Seq::empty()
    } else if dims.len() == 1 {
        dec_chars(dims[0] as nat)
    } else {
        dims_list_chars(dims.drop_last()) + ", "@ + dec_chars(dims.last() as nat)
    }
}

/// The text that `Debug` shows for dimensions `dims`: `Dimensions(4, 3)`, or `Dimensions` if
/// there are none.
pub open spec fn dims_debug_chars(dims: Seq<usize>) -> Seq<char> {
    if dims.len() == 0 {
        "Dimensions"@
    } else {
        "Dimensions("@ + dims_list_chars(dims) + ")"@
    }
}

/// The text that `Display` shows for dimensions `dims`: `(4, 3)`, `(4,)` for a single
/// dimension, or nothing if there are none.
pub open spec fn dims_display_chars(dims: Seq<usize>) -> Seq<char> {
    if dims.len() == 0 {
        Seq::empty()
    } else if dims.len() == 1 {
        "("@ + dims_list_chars(dims) + ",)"@
    } else {
        "("@ + dims_list_chars(dims) + ")"@
    }
}

/// Appends the number of elements of each dimension to `s`, separated by `, `.
fn append_dims_list(s: &mut String, dims: &[usize])
    ensures
        final(s)@ == old(s)@ + dims_list_chars(dims@),
{
    let n = dims.len();
    let ghost start = s@;
    let mut i: usize = 0;
    while i < n
        invariant
            0 <= i <= n,
            n == dims@.len(),
            s@ == start + dims_list_chars(dims@.take(i as int)),
        decreases n - i,
    {
        if i > 0 {
            s.append(", ");
        }
        let d = dec_string(dims[i] as u64);
        s.append(d.as_str());
        proof {
            let t = dims@.take(i + 1);
            assert(t.drop_last() =~= dims@.take(i as int));
            if i == 0 {
                assert(dims@.take(0).len() == 0);
                assert(dims_list_chars(dims@.take(0)) =~= Seq::<char>::empty());
            }
        }
        i = i + 1;
    }
    assert(dims@.take(n as int) =~= dims@);
}

impl Dimensions {
    /// Returns the text that `Debug` shows for these dimensions.
    pub fn debug_string(&self) -> (r: String)
        ensures
            r@ == dims_debug_chars(self@),
    {
        let dims = self.as_slice();
        if dims.len() == 0 {
            "Dimensions".to_owned()
        } else {
            let mut s = "Dimensions(".to_owned();
            append_dims_list(&mut s, dims);
            s.append(")");
            s
        }
    }

    /// Returns the text that `Display` shows for these dimensions.
    pub fn display_string(&self) -> (r: String)
        ensures
            r@ == dims_display_chars(self@),
    {
        let dims = self.as_slice();
        if dims.len() == 0 {
            let s = "".to_owned();
            proof {
                reveal_strlit("");
            }
            s
        } else {
            let mut s = "(".to_owned();
            append_dims_list(&mut s, dims);
            if dims.len() == 1 {
                s.append(",)");
            } else {
                s.append(")");
            }
            s
        }
    }
}

/// Writes the number of elements of each dimension of `dims` into `tup`.
fn fill_from_dims<D: Dims>(dims: &D, tup: &mut [usize])
    requires
        old(tup)@.len() == dims.dims_view().len(),
    ensures
        final(tup)@ == dims.dims_view(),
{
    let n = dims.rank();
    let mut i: usize = 0;
    while i < n
        invariant
            0 <= i <= n,
            n == dims.dims_view().len(),
            tup@.len() == n,
            forall|j: int| 0 <= j < i ==> #[trigger] tup@[j] == dims.dims_view()[j],
        decreases n - i,
    {
        let d = dims.n_elements_unchecked(i);
        tup[i] = d;
        i = i + 1;
    }
    assert(tup@ =~= dims.dims_view());
}

/// Extension trait for implementations of `Dims` that can be used to construct new arrays.
///
/// This trait is similar to `RankedDims`, but doesn't require that the rank of the dimensions is
/// known in advance.
pub trait DimsExt: Dims {
    /// Fill `tup` with the number of elements of each dimension. `tup` must have one element
    /// for each dimension.
    fn fill_tuple(&self, tup: &mut [usize])
        requires
            old(tup)@.len() == self.dims_view().len(),
        ensures
            final(tup)@ == self.dims_view(),
    ;
}

impl<D: RankedDims> DimsExt for D {
    fn fill_tuple(&self, tup: &mut [usize]) {
        <Self as RankedDims>::fill_tuple(self, tup)
    }
}

impl<'a> DimsExt for &'a [usize] {
    fn fill_tuple(&self, tup: &mut [usize]) {
        fill_from_dims(self, tup)
    }
}

impl DimsExt for Dimensions {
    fn fill_tuple(&self, tup: &mut [usize]) {
        fill_from_dims(self, tup)
    }
}

/// Extension trait for implementations of `Dims` with a rank that is known in advance.
pub trait RankedDims: Dims {
    /// Fill `tup` with the number of elements of each dimension. `tup` must have one element
    /// for each dimension.
    fn fill_tuple(&self, tup: &mut [usize])
        requires
            old(tup)@.len() == self.dims_view().len(),
        ensures
            final(tup)@ == self.dims_view(),
    ;
}

impl RankedDims for usize {
    fn fill_tuple(&self, tup: &mut [usize]) {
        tup[0] = *self;
        assert(tup@ =~= self.dims_view());
    }
}

impl RankedDims for () {
    fn fill_tuple(&self, tup: &mut [usize]) {
        assert(tup@ =~= self.dims_view());
    }
}

impl RankedDims for (usize,) {
    fn fill_tuple(&self, tup: &mut [usize]) {
        tup[0] = self.0;
        assert(tup@ =~= self.dims_view());
    }
}

impl RankedDims for (usize, usize) {
    fn fill_tuple(&self, tup: &mut [usize]) {
        tup[0] = self.0;
        tup[1] = self.1;
        assert(tup@ =~= self.dims_view());
    }
}

impl RankedDims for (usize, usize, usize) {
    fn fill_tuple(&self, tup: &mut [usize]) {
        tup[0] = self.0;
        tup[1] = self.1;
        tup[2] = self.2;
        assert(tup@ =~= self.dims_view());
    }
}

impl RankedDims for (usize, usize, usize, usize) {
    fn fill_tuple(&self, tup: &mut [usize]) {
        tup[0] = self.0;
        tup[1] = self.1;
        tup[2] = self.2;
        tup[3] = self.3;
        assert(tup@ =~= self.dims_view());
    }
}

impl<'a, const N: usize> RankedDims for &'a [usize; N] {
    fn fill_tuple(&self, tup: &mut [usize]) {
        fill_from_dims(self, tup)
    }
}

impl<const N: usize> RankedDims for [usize; N] {
    fn fill_tuple(&self, tup: &mut [usize]) {
        fill_from_dims(self, tup)
    }
}

/// True if dimensions of rank `a` can index into an array of rank `b`: the ranks are equal, or
/// one of them is only known at runtime (`-1`).
pub open spec fn ranks_compatible(a: isize, b: isize) -> bool {
    a == -1 || b == -1 || a == b
}

/// Check if two dimension types are compatible.
pub trait CompatibleIndices<A: Dims, B: Dims>: private::CompatibleIndicesPriv {
    /// Returns `true` if the rank of `A` or `B` is -1, or if the ranks of `A` and `B` are equal.
    ///
    /// If the rank of either `A` or `B` is -1, the ranks have to be compared at runtime.
    fn assert_compatible() -> (r: bool)
        ensures
            r == ranks_compatible(A::RANK, B::RANK),
    {
        A::RANK == -1 || B::RANK == -1 || A::RANK == B::RANK
    }
}

impl<A: Dims, B: Dims> CompatibleIndices<A, B> for (A, B) {}

/// Assert that a dimension type is compatible with the rank of an array.
pub trait DimsRankCheck<D: Dims> {
    /// Returns `true` if the rank of `D` is `n`, or if either of them is -1.
    fn assert_valid_rank(n: isize) -> (r: bool)
        ensures
            r == ranks_compatible(D::RANK, n),
    {
        D::RANK == n || n == -1 || D::RANK == -1
    }

    /// Returns `true` if it must be checked at runtime that the rank of `D` is `n`.
    fn needs_runtime_rank_check(n: isize) -> (r: bool)
        ensures
            r == (n != -1 && D::RANK == -1),
    {
        n != -1 && D::RANK == -1
    }
}

/// Helper struct for using [`DimsRankCheck`].
pub struct DimsRankAssert<D: Dims>(core::marker::PhantomData<D>);

impl<D: Dims> DimsRankCheck<D> for DimsRankAssert<D> {}

} // verus!
