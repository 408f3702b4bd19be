//! Strides, storage order and the row-major order of an array's elements.

use vstd::prelude::*;

use crate::shape::{lemma_product_nonnegative, product, valid_shape};

verus! {

/// Each axis that is longer or shorter than one element steps over exactly the elements of the
/// axes after it. The stride of an axis of length one is never used, so it is free.
pub open spec fn row_contiguous(shape: Seq<i32>, strides: Seq<usize>) -> bool {
    forall|i: int|
        #![trigger strides[i]]
        0 <= i < shape.len() && shape[i] != 1 ==> strides[i] == product(shape.skip(i + 1))
}

/// `index` names an element of an array of this shape: one coordinate per axis, each within it.
pub open spec fn in_bounds(shape: Seq<i32>, index: Seq<int>) -> bool {
    &&& index.len() == shape.len()
    &&& forall|i: int| 0 <= i < shape.len() ==> 0 <= #[trigger] index[i] < shape[i]
}

/// The position of an element in row-major order, in which the last axis varies fastest.
pub open spec fn rank(shape: Seq<i32>, index: Seq<int>) -> int
    decreases shape.len(),
{
    if shape.len() == 0 {
        0
    } else {
        index[0] * product(shape.skip(1)) + rank(shape.skip(1), index.skip(1))
    }
}

/// The position of an element in the storage buffer: each coordinate times the stride of its axis.
pub open spec fn offset(strides: Seq<usize>, index: Seq<int>) -> int
    decreases strides.len(),
{
    if strides.len() == 0 {
        0
    } else {
        index[0] * strides[0] + offset(strides.skip(1), index.skip(1))
    }
}

/// The element that stands at position `r` in row-major order.
pub open spec fn unrank(shape: Seq<i32>, r: int) -> Seq<int>
    decreases shape.len(),
{
    if shape.len() == 0 {
        Seq::empty()
    } else {
        let rest = product(shape.skip(1));
        seq![r / rest] + unrank(shape.skip(1), r % rest)
    }
}

/// Multiplies `total` by `dim`, where `None` stands for a number that no `usize` can hold.
fn scale(total: Option<usize>, dim: usize) -> (scaled: Option<usize>)
    ensures
        match (total, scaled) {
            (Some(t), Some(s)) => s == t * dim,
            (Some(t), None) => t * dim > usize::MAX,
            (None, Some(s)) => dim == 0 && s == 0,
            (None, None) => dim > 0,
        },
{
    match total {
        Some(t) => t.checked_mul(dim),
        None => if dim == 0 {
            Some(0)
        } else {
            None
        },
    }
}

/// Whether the array is laid out row-major (C-order) contiguously.
///
/// The stride that an axis must have is the number of elements of all the axes after it, so the
/// axes are walked from the last one, with that number kept on the way. An axis of length one
/// imposes no constraint.
pub fn is_row_contiguous(shape: &[i32], strides: &[usize]) -> (contiguous: bool)
    requires
        shape@.len() == strides@.len(),
        valid_shape(shape@),
    ensures
        contiguous == row_contiguous(shape@, strides@),
{
    let mut expected: Option<usize> = Some(1);
    let mut i: usize = shape.len();
    assert(shape@.skip(shape@.len() as int) =~= Seq::<i32>::empty());
    while i > 0
        invariant
            i <= shape@.len(),
            shape@.len() == strides@.len(),
            valid_shape(shape@),
            forall|j: int|
                #![trigger strides@[j]]
                i <= j < shape@.len() && shape@[j] != 1 ==> strides@[j] == product(
                    shape@.skip(j + 1),
                ),
            0 <= product(shape@.skip(i as int)),
            match expected {
                Some(e) => e == product(shape@.skip(i as int)),
                None => usize::MAX < product(shape@.skip(i as int)),
            },
        decreases i,
    {
        i = i - 1;
        let dim: usize = shape[i] as usize;
        let ghost later = product(shape@.skip(i + 1));
        proof {
            assert(shape@.skip(i as int).skip(1) =~= shape@.skip(i + 1));
            assert(product(shape@.skip(i as int)) == dim * later);
            assert(dim > 0 ==> later <= dim * later) by (nonlinear_arith)
                requires
                    0 <= later,
            ;
            assert(0 <= dim * later) by (nonlinear_arith)
                requires
                    0 <= later,
                    0 <= dim,
            ;
            assert(dim == 0 ==> dim * later == 0) by (nonlinear_arith);
        }
        if dim != 1 {
            match expected {
                Some(e) => {
                    if strides[i] != e {
                        return false;
                    }
                },
                None => {
                    assert(strides@[i as int] != later);
                    return false;
                },
            }
        }
        let ghost before = expected;
        expected = scale(expected, dim);
        proof {
            if let Some(e) = before {
                assert(e * dim == dim * later) by (nonlinear_arith)
                    requires
                        e == later,
                ;
            }
        }
    }
    true
}

/// The elements of an array as MLX holds them: a storage buffer, and the shape and strides by
/// which its elements are found there.
pub struct Tensor<T> {
    pub shape: Seq<i32>,
    pub strides: Seq<usize>,
    pub storage: Seq<T>,
}

impl<T> Tensor<T> {
    /// The elements in logical (row-major) order, wherever they lie in the storage buffer.
    pub open spec fn logical(self) -> Seq<T> {
        Seq::new(
            product(self.shape) as nat,
            |r: int| self.storage[offset(self.strides, unrank(self.shape, r))],
        )
    }

    /// One stride per axis, no axis of negative length, and every element within the storage
    /// buffer.
    pub open spec fn valid(self) -> bool {
        &&& self.shape.len() == self.strides.len()
        &&& valid_shape(self.shape)
        &&& forall|index: Seq<int>|
            in_bounds(self.shape, index) ==> 0 <= #[trigger] offset(self.strides, index)
                < self.storage.len()
    }
}

/// The shape without its first axis has no negative dimension either.
proof fn lemma_valid_rest(shape: Seq<i32>)
    requires
        valid_shape(shape),
        shape.len() > 0,
    ensures
        valid_shape(shape.skip(1)),
{
    assert forall|i: int| 0 <= i < shape.skip(1).len() implies 0 <= #[trigger] shape.skip(1)[i] by {
        assert(shape.skip(1)[i] == shape[i + 1]);
    }
}

/// The coordinates after the first are within the axes after the first.
proof fn lemma_in_bounds_rest(shape: Seq<i32>, index: Seq<int>)
    requires
        in_bounds(shape, index),
        shape.len() > 0,
    ensures
        in_bounds(shape.skip(1), index.skip(1)),
{
    assert forall|i: int| 0 <= i < shape.skip(1).len() implies 0 <= #[trigger] index.skip(1)[i]
        < shape.skip(1)[i] by {
        assert(index.skip(1)[i] == index[i + 1]);
        assert(shape.skip(1)[i] == shape[i + 1]);
    }
}

/// Row-major order gives each position of an array exactly one element: the element at position
/// `r` is within the shape, and stands at position `r`.
pub proof fn unrank_inverts_rank(shape: Seq<i32>, r: int)
    requires
        valid_shape(shape),
        0 <= r < product(shape),
    ensures
        in_bounds(shape, unrank(shape, r)),
        rank(shape, unrank(shape, r)) == r,
    decreases shape.len(),
{
    if shape.len() > 0 {
        lemma_valid_rest(shape);
        lemma_product_nonnegative(shape.skip(1));
        let rest = product(shape.skip(1));
        let dim = shape[0] as int;
        assert(rest > 0) by (nonlinear_arith)
            requires
                0 <= rest,
                0 <= r < dim * rest,
        ;
        assert(0 <= r / rest < dim && 0 <= r % rest < rest && (r / rest) * rest + r % rest == r)
            by (nonlinear_arith)
            requires
                rest > 0,
                0 <= r < dim * rest,
        ;
        unrank_inverts_rank(shape.skip(1), r % rest);
        let index = unrank(shape, r);
        let tail = unrank(shape.skip(1), r % rest);
        assert(index.skip(1) =~= tail);
        assert forall|i: int| 0 <= i < shape.len() implies 0 <= #[trigger] index[i] < shape[i] by {
            if i > 0 {
                assert(index[i] == tail[i - 1]);
                assert(shape[i] == shape.skip(1)[i - 1]);
            }
        }
    }
}

/// Row-major order gives each element of an array exactly one position: it is a position of the
/// array, and the element is the one that stands there.
pub proof fn rank_inverts_unrank(shape: Seq<i32>, index: Seq<int>)
    requires
        in_bounds(shape, index),
    ensures
        0 <= rank(shape, index) < product(shape),
        unrank(shape, rank(shape, index)) == index,
    decreases shape.len(),
{
    if shape.len() > 0 {
        lemma_in_bounds_rest(shape, index);
        rank_inverts_unrank(shape.skip(1), index.skip(1));
        let rest = product(shape.skip(1));
        let tail = rank(shape.skip(1), index.skip(1));
        let first = index[0];
        let dim = shape[0] as int;
        let r = first * rest + tail;
        assert(0 <= r < dim * rest) by (nonlinear_arith)
            requires
                0 <= first < dim,
                0 <= tail < rest,
                r == first * rest + tail,
        ;
        vstd::arithmetic::div_mod::lemma_fundamental_div_mod_converse(r, rest, first, tail);
        assert(unrank(shape, r) =~= index) by {
            assert(seq![first] + index.skip(1) =~= index);
        }
    } else {
        assert(index =~= Seq::<int>::empty());
    }
}

/// In a row-contiguous layout every element lies in the storage buffer at its row-major position.
pub proof fn row_contiguous_stores_in_row_major_order(
    shape: Seq<i32>,
    strides: Seq<usize>,
    index: Seq<int>,
)
    requires
        shape.len() == strides.len(),
        row_contiguous(shape, strides),
        in_bounds(shape, index),
    ensures
        offset(strides, index) == rank(shape, index),
    decreases shape.len(),
{
    if shape.len() > 0 {
        lemma_in_bounds_rest(shape, index);
        assert(row_contiguous(shape.skip(1), strides.skip(1))) by {
            assert forall|i: int|
                #![trigger strides.skip(1)[i]]
                0 <= i < shape.skip(1).len() && shape.skip(1)[i] != 1 implies strides.skip(1)[i]
                == product(shape.skip(1).skip(i + 1)) by {
                assert(strides.skip(1)[i] == strides[i + 1]);
                assert(shape.skip(1).skip(i + 1) =~= shape.skip(i + 2));
            }
        }
        row_contiguous_stores_in_row_major_order(shape.skip(1), strides.skip(1), index.skip(1));
        if shape[0] == 1 {
            assert(index[0] == 0);
        } else {
            assert(strides[0] == product(shape.skip(1)));
        }
    }
}

/// The index whose coordinates are all zero but one, which is one.
spec fn unit(n: nat, axis: int) -> Seq<int> {
    Seq::new(
        n,
        |i: int|
            if i == axis {
                1int
            } else {
                0int
            },
    )
}

/// The position of a unit index in row-major order and in storage.
proof fn lemma_unit(shape: Seq<i32>, strides: Seq<usize>, axis: int)
    requires
        shape.len() == strides.len(),
        axis < shape.len(),
    ensures
        rank(shape, unit(shape.len(), axis)) == (if axis < 0 {
            0
        } else {
            product(shape.skip(axis + 1))
        }),
        offset(strides, unit(shape.len(), axis)) == (if axis < 0 {
            0
        } else {
            strides[axis] as int
        }),
    decreases shape.len(),
{
    if shape.len() > 0 {
        let u = unit(shape.len(), axis);
        assert(u.skip(1) =~= unit((shape.len() - 1) as nat, axis - 1));
        lemma_unit(shape.skip(1), strides.skip(1), axis - 1);
        if axis > 0 {
            assert(shape.skip(1).skip(axis) =~= shape.skip(axis + 1));
            assert(strides.skip(1)[axis - 1] == strides[axis]);
        }
    }
}

/// A layout of at least one element that stores every element at its row-major position is
/// row-contiguous. (With no elements at all there is nothing to store, whatever the strides.)
pub proof fn row_major_storage_is_row_contiguous(shape: Seq<i32>, strides: Seq<usize>)
    requires
        shape.len() == strides.len(),
        forall|i: int| 0 <= i < shape.len() ==> 0 < #[trigger] shape[i],
        forall|index: Seq<int>|
            in_bounds(shape, index) ==> #[trigger] offset(strides, index) == rank(shape, index),
    ensures
        row_contiguous(shape, strides),
{
    assert forall|i: int|
        #![trigger strides[i]]
        0 <= i < shape.len() && shape[i] != 1 implies strides[i] == product(shape.skip(i + 1)) by {
        let u = unit(shape.len(), i);
        assert(in_bounds(shape, u));
        lemma_unit(shape, strides, i);
        assert(offset(strides, u) == rank(shape, u));
    }
}

/// Reading the storage buffer of a row-contiguous array from its start gives the elements in
/// logical order.
pub proof fn row_contiguous_storage_is_logical<T>(tensor: Tensor<T>)
    requires
        tensor.valid(),
        row_contiguous(tensor.shape, tensor.strides),
    ensures
        product(tensor.shape) <= tensor.storage.len(),
        tensor.storage.take(product(tensor.shape)) == tensor.logical(),
{
    lemma_product_nonnegative(tensor.shape);
    let size = product(tensor.shape);
    if size > 0 {
        let last = unrank(tensor.shape, size - 1);
        unrank_inverts_rank(tensor.shape, size - 1);
        row_contiguous_stores_in_row_major_order(tensor.shape, tensor.strides, last);
    }
    assert forall|r: int| 0 <= r < size implies tensor.storage.take(size)[r]
        == tensor.logical()[r] by {
        unrank_inverts_rank(tensor.shape, r);
        row_contiguous_stores_in_row_major_order(
            tensor.shape,
            tensor.strides,
            unrank(tensor.shape, r),
        );
    }
    assert(tensor.storage.take(size) =~= tensor.logical());
}

} // verus!
