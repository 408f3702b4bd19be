//! The shapes of results.

use vstd::prelude::*;

verus! {

/// The length of an axis, counted from the last one, where a shape is thought to begin with as many
/// axes of length one as are needed.
pub open spec fn from_last(shape: Seq<i32>, i: int) -> i32 {
    if 0 <= i < shape.len() {
        shape[shape.len() - 1 - i]
    } else {
        1
    }
}

/// The larger of two numbers of axes.
pub open spec fn joined_len(a: Seq<i32>, b: Seq<i32>) -> nat {
    if a.len() >= b.len() {
        a.len()
    } else {
        b.len()
    }
}

/// Two shapes go together: axis by axis from the last one, the lengths are equal or one of them is
/// one.
pub open spec fn joins(a: Seq<i32>, b: Seq<i32>) -> bool {
    forall|i: int|
        0 <= i < joined_len(a, b) ==> #[trigger] from_last(a, i) == from_last(b, i) || from_last(
            a,
            i,
        ) == 1 || from_last(b, i) == 1
}

/// The shape that two shapes stretch to.
pub open spec fn joined(a: Seq<i32>, b: Seq<i32>) -> Seq<i32> {
    let n = joined_len(a, b);
    Seq::new(
        n,
        |k: int|
            {
                let i = n - 1 - k;
                if from_last(a, i) == 1 {
                    from_last(b, i)
                } else {
                    from_last(a, i)
                }
            },
    )
}

/// The axes are those of an array with `n` of them, counted from the first.
pub open spec fn are_axes(axes: Seq<i32>, n: nat) -> bool {
    forall|i: int| 0 <= i < axes.len() ==> 0 <= #[trigger] axes[i] < n
}

/// The axis is among the given ones.
pub open spec fn names(axes: Seq<i32>, axis: int) -> bool {
    exists|i: int| 0 <= i < axes.len() && #[trigger] axes[i] == axis
}

/// The shape with the given axes reduced to length one.
pub open spec fn flattened(shape: Seq<i32>, axes: Seq<i32>) -> Seq<i32> {
    Seq::new(
        shape.len(),
        |i: int|
            if names(axes, i) {
                1
            } else {
                shape[i]
            },
    )
}

/// The first `n` axes of the shape without the given ones.
pub open spec fn without(shape: Seq<i32>, axes: Seq<i32>, n: int) -> Seq<i32>
    decreases n,
{
    if n <= 0 {
        Seq::empty()
    } else if names(axes, n - 1) {
        without(shape, axes, n - 1)
    } else {
        without(shape, axes, n - 1).push(shape[n - 1])
    }
}

/// The shape of a reduction over the given axes.
pub open spec fn reduced(shape: Seq<i32>, axes: Seq<i32>, keepdims: bool) -> Seq<i32> {
    if keepdims {
        flattened(shape, axes)
    } else {
        without(shape, axes, shape.len() as int)
    }
}

/// The shape of a reduction over all axes.
pub open spec fn collapsed(shape: Seq<i32>, keepdims: bool) -> Seq<i32> {
    if keepdims {
        Seq::new(shape.len(), |i: int| 1i32)
    } else {
        Seq::empty()
    }
}

/// The left operand of a matrix product as a matrix: an axis goes before a single one.
pub open spec fn as_rows(shape: Seq<i32>) -> Seq<i32> {
    if shape.len() == 1 {
        seq![1, shape[0]]
    } else {
        shape
    }
}

/// The right operand of a matrix product as a matrix: an axis goes after a single one.
pub open spec fn as_columns(shape: Seq<i32>) -> Seq<i32> {
    if shape.len() == 1 {
        seq![shape[0], 1]
    } else {
        shape
    }
}

/// The axes before the last two.
pub open spec fn batch(shape: Seq<i32>) -> Seq<i32> {
    shape.take(shape.len() - 2)
}

/// Two shapes with axes can be multiplied as matrices: the inner lengths are equal, and the axes
/// before the last two go together.
pub open spec fn multiplies(a: Seq<i32>, b: Seq<i32>) -> bool {
    let (x, y) = (as_rows(a), as_columns(b));
    &&& x[x.len() - 1] == y[y.len() - 2]
    &&& joins(batch(x), batch(y))
}

/// The shape of a matrix product. The axis that was added to an operand is removed again.
pub open spec fn multiplied(a: Seq<i32>, b: Seq<i32>) -> Seq<i32> {
    let (x, y) = (as_rows(a), as_columns(b));
    let rows = if a.len() == 1 {
        Seq::empty()
    } else {
        seq![x[x.len() - 2]]
    };
    let columns = if b.len() == 1 {
        Seq::empty()
    } else {
        seq![y[y.len() - 1]]
    };
    joined(batch(x), batch(y)) + rows + columns
}

/// A shape without axes goes with any other and stretches to it, on either side. So does any shape
/// with itself.
pub proof fn a_scalar_joins_any_shape(shape: Seq<i32>)
    ensures
        joins(shape, Seq::empty()),
        joins(Seq::empty(), shape),
        joins(shape, shape),
        joined(shape, Seq::empty()) == shape,
        joined(Seq::empty(), shape) == shape,
        joined(shape, shape) == shape,
{
    assert(joined(shape, Seq::empty()) =~= shape);
    assert(joined(Seq::empty(), shape) =~= shape);
    assert(joined(shape, shape) =~= shape);
}

/// Two shapes that go together do so in either order, and stretch to the same shape.
pub proof fn joining_is_symmetric(a: Seq<i32>, b: Seq<i32>)
    ensures
        joins(a, b) == joins(b, a),
        joins(a, b) ==> joined(a, b) == joined(b, a),
{
    assert(joined_len(a, b) == joined_len(b, a));
    if joins(a, b) {
        assert forall|i: int| 0 <= i < joined_len(b, a) implies #[trigger] from_last(b, i)
            == from_last(a, i) || from_last(b, i) == 1 || from_last(a, i) == 1 by {
            assert(from_last(a, i) == from_last(b, i) || from_last(a, i) == 1 || from_last(b, i)
                == 1);
        }
        assert forall|k: int| 0 <= k < joined_len(a, b) implies #[trigger] joined(a, b)[k]
            == joined(b, a)[k] by {
            let i = joined_len(a, b) - 1 - k;
            assert(from_last(a, i) == from_last(b, i) || from_last(a, i) == 1 || from_last(b, i)
                == 1);
        }
        assert(joined(a, b) =~= joined(b, a));
    }
    if joins(b, a) {
        assert forall|i: int| 0 <= i < joined_len(a, b) implies #[trigger] from_last(a, i)
            == from_last(b, i) || from_last(a, i) == 1 || from_last(b, i) == 1 by {
            assert(from_last(b, i) == from_last(a, i) || from_last(b, i) == 1 || from_last(a, i)
                == 1);
        }
    }
}

/// A reduction over no axes leaves the shape as it is.
pub proof fn reducing_no_axes_keeps_the_shape(shape: Seq<i32>, keepdims: bool)
    ensures
        reduced(shape, Seq::empty(), keepdims) == shape,
{
    lemma_without_none(shape, shape.len() as int);
    assert(shape.take(shape.len() as int) =~= shape);
    assert(flattened(shape, Seq::empty()) =~= shape);
}

/// Removing none of the first `n` axes leaves them.
proof fn lemma_without_none(shape: Seq<i32>, n: int)
    requires
        0 <= n <= shape.len(),
    ensures
        without(shape, Seq::empty(), n) == shape.take(n),
    decreases n,
{
    if n > 0 {
        lemma_without_none(shape, n - 1);
        assert(shape.take(n - 1).push(shape[n - 1]) =~= shape.take(n));
    } else {
        assert(shape.take(0) =~= Seq::<i32>::empty());
    }
}

/// A reduction over all axes by name has the shape of a reduction over all axes.
pub proof fn reducing_every_axis_collapses(shape: Seq<i32>, axes: Seq<i32>, keepdims: bool)
    requires
        forall|i: int| 0 <= i < shape.len() ==> #[trigger] names(axes, i),
    ensures
        reduced(shape, axes, keepdims) == collapsed(shape, keepdims),
{
    lemma_without_all(shape, axes, shape.len() as int);
    assert(flattened(shape, axes) =~= collapsed(shape, true));
}

/// Removing all of the first `n` axes leaves none.
proof fn lemma_without_all(shape: Seq<i32>, axes: Seq<i32>, n: int)
    requires
        0 <= n <= shape.len(),
        forall|i: int| 0 <= i < shape.len() ==> #[trigger] names(axes, i),
    ensures
        without(shape, axes, n) == Seq::<i32>::empty(),
    decreases n,
{
    if n > 0 {
        lemma_without_all(shape, axes, n - 1);
    }
}

/// Two matrices can be multiplied exactly if the inner lengths are equal, and `[n, k]` by `[k, m]`
/// is `[n, m]`.
pub proof fn matrices_multiply(n: i32, k: i32, l: i32, m: i32)
    ensures
        multiplies(seq![n, k], seq![l, m]) == (k == l),
        multiplied(seq![n, k], seq![l, m]) == seq![n, m],
{
    assert(multiplied(seq![n, k], seq![l, m]) =~= seq![n, m]);
}

/// A single axis by a single axis of the same length has no axes, and a matrix by a single axis has
/// one.
pub proof fn vectors_multiply(n: i32, k: i32, l: i32)
    ensures
        multiplies(seq![k], seq![l]) == (k == l),
        multiplied(seq![k], seq![l]) == Seq::<i32>::empty(),
        multiplies(seq![n, k], seq![l]) == (k == l),
        multiplied(seq![n, k], seq![l]) == seq![n],
        multiplies(seq![k], seq![l, n]) == (k == l),
        multiplied(seq![k], seq![l, n]) == seq![n],
{
    assert(multiplied(seq![k], seq![l]) =~= Seq::<i32>::empty());
    assert(multiplied(seq![n, k], seq![l]) =~= seq![n]);
    assert(multiplied(seq![k], seq![l, n]) =~= seq![n]);
}

} // verus!
