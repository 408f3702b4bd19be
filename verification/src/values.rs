//! What becomes of the elements when arrays are converted, rearranged, filled and read.
//!
//! The steps of a program are given one by one, each with the memory before and after it. Between
//! two steps other arrays may come and go, as long as the array in question stays the same.

use vstd::prelude::*;

use crate::array::Array;
use crate::call::{
    ffi_list, BinaryOp, Call, FillOp, Op, RawArray, ReduceOp, Reply, ShapeOp, UnaryOp,
};
use crate::copy::ToVecError;
use crate::dtype::Dtype;
use crate::error::Error;
use crate::extent::{
    a_scalar_joins_any_shape, are_axes, collapsed, joined, joins, multiplied, multiplies, reduced,
    reducing_no_axes_keeps_the_shape,
};
use crate::full::{full_calls, FullPlan, FullTask};
use crate::item::{item_calls, ItemTask, NotScalar};
use crate::layout::{
    in_bounds, rank, rank_inverts_unrank, row_contiguous, unrank, unrank_inverts_rank,
};
use crate::memory::{
    accepts, acts, elements_of, filled, filling_leaves_the_other_arrays, gives_bool, lemma_steps,
    listed, needs_float64, operations_leave_the_other_arrays, operators_leave_the_other_arrays,
    operators_yield_what_operations_yield, promoted, promotes, reading_an_item_gives_the_element,
    reading_gives_the_elements, rearranges, reduces_to_bool, rejects, run, runs_on, settled,
    squeezed, steps, stretched, stretches, supports, transposed, unchanged, yields, Memory,
};
use crate::op::{failed, op_calls, op_gives, OpPlan, OpTask};
use crate::operator::{
    operator_calls, operator_gives, Arith, OperatorError, OperatorPlan, OperatorTask,
};
use crate::query::{
    layout_calls, CountPlan, CountTask, EvalTask, LayoutTask, ShapeTask, StridesTask,
};
use crate::read::ReadPlan;
use crate::schedule::Device;
use crate::shape::{lemma_product_concat, product, valid_shape};
use crate::task::{after, Task};
use crate::to_vec::{contiguous, ToVecTask};
use crate::typed::{
    complete, operations_carry_no_elements, operators_carry_no_elements, queries_carry_no_elements,
    typed, typed_call, typed_calls, typed_plan, typed_reply,
};

verus! {

/// An operation that was run: its plan, the replies it got, what it came to, and the memory before
/// it and after each of its calls.
#[verifier::reject_recursive_types(T)]
pub struct Operation<'a, T> {
    pub plan: OpPlan<'a>,
    pub replies: Seq<Reply<()>>,
    pub output: Result<Array, Error>,
    pub states: Seq<Memory<T>>,
}

impl<'a, T: Copy> Operation<'a, T> {
    /// The parts belong together.
    pub open spec fn happens(self) -> bool {
        &&& complete::<(), OpTask<'a, ()>>(self.plan, self.replies)
        &&& <OpTask<'a, ()> as Task<'a, ()>>::gives(self.plan, self.replies, self.output)
        &&& run(
            typed_calls::<T>(<OpTask<'a, ()> as Task<'a, ()>>::calls(self.plan, self.replies)),
            typed(self.replies),
            self.states,
        )
    }

    /// The memory before the operation.
    pub open spec fn before(self) -> Memory<T> {
        self.states[0]
    }

    /// The memory after the operation.
    pub open spec fn after(self) -> Memory<T> {
        self.states.last()
    }

    /// The handle of the result.
    pub open spec fn result(self) -> RawArray {
        self.output->Ok_0.raw()
    }
}

/// A read of an array's elements: the replies it got, what it came to, and the memory before it and
/// after each of its calls.
#[verifier::reject_recursive_types(T)]
pub struct Reading<T> {
    pub array: RawArray,
    pub dtype: Dtype,
    pub replies: Seq<Reply<T>>,
    pub output: Result<Vec<T>, ToVecError>,
    pub states: Seq<Memory<T>>,
}

impl<T: Copy> Reading<T> {
    /// The parts belong together, `dtype` is the element type that `T` stands for, and no copy that
    /// was needed has failed.
    pub open spec fn happens(self) -> bool {
        let plan = ReadPlan { array: self.array, dtype: self.dtype };
        &&& run(
            <ToVecTask<T> as Task<T>>::calls(plan, self.replies),
            self.replies,
            self.states,
        )
        &&& <ToVecTask<T> as Task<T>>::gives(plan, self.replies, self.output)
        &&& self.states[0].setting.element == self.dtype.code()
        &&& self.states[0].arrays.contains_key(self.array)
        &&& !(self.output matches Err(ToVecError::Contiguous { .. }))
    }

    /// The memory before the read.
    pub open spec fn before(self) -> Memory<T> {
        self.states[0]
    }
}

/// The array is still there, and still the same.
pub open spec fn stays<T>(earlier: Memory<T>, later: Memory<T>, array: RawArray) -> bool {
    &&& later.setting == earlier.setting
    &&& earlier.arrays.contains_key(array)
    &&& later.arrays.contains_key(array)
    &&& later.arrays[array].same(earlier.arrays[array])
}

/// The memory after an operation, by its outcome.
pub(crate) proof fn lemma_operation<'a, T: Copy>(o: Operation<'a, T>)
    requires
        o.happens(),
    ensures
        settled(o.before(), o.after(), None, o.output),
        o.output is Ok ==> {
            &&& o.after().arrays.contains_key(o.result())
            &&& yields(o.plan.op, o.before(), o.after().arrays[o.result()])
            &&& o.after().arrays[o.result()].valid(o.before().setting.element)
            &&& !rejects(o.plan.op, o.plan.stream, o.before())
        },
        o.output is Err ==> !accepts(o.plan.op, o.plan.stream, o.before()),
        o.before().valid(),
{
    operations_carry_no_elements::<T>(o.plan, o.replies, o.output);
    let replies = typed::<T>(o.replies);
    let calls = op_calls(o.plan, replies);
    operations_leave_the_other_arrays(o.plan, replies, o.output, o.states);
    lemma_steps(calls, replies, o.states, 3);
    reveal_with_fuel(steps, 4);
}

/// What a read comes to.
proof fn lemma_reading<T: Copy>(read: Reading<T>)
    requires
        read.happens(),
    ensures
        elements_of(read.before().arrays[read.array], read.dtype, read.output),
{
    let plan = ReadPlan { array: read.array, dtype: read.dtype };
    reading_gives_the_elements::<T>(plan, read.replies, read.output, read.states);
    if !contiguous(read.replies) {
        assert(after(read.replies, 5)[4] == read.replies[9]);
    }
}

/// The two reads come to the same: equal elements in equal order, or the same wrong type.
pub open spec fn agree_on<T>(
    a: Result<Vec<T>, ToVecError>,
    b: Result<Vec<T>, ToVecError>,
) -> bool {
    match (a, b) {
        (Ok(x), Ok(y)) => x@ == y@,
        (Err(ToVecError::Dtype { found: x }), Err(ToVecError::Dtype { found: y })) => x == y,
        _ => false,
    }
}

/// Arrays of equal type with equal elements read the same, whatever their shapes and layouts.
pub proof fn equal_elements_read_the_same<T: Copy>(first: Reading<T>, second: Reading<T>)
    requires
        first.happens(),
        second.happens(),
        first.dtype == second.dtype,
        first.before().arrays[first.array].dtype == second.before().arrays[second.array].dtype,
        first.before().arrays[first.array].elements
            == second.before().arrays[second.array].elements,
    ensures
        agree_on(first.output, second.output),
{
    lemma_reading(first);
    lemma_reading(second);
}

/// Reading an array again gives the same, as long as the array stays.
pub proof fn a_second_read_is_the_same<T: Copy>(first: Reading<T>, second: Reading<T>)
    requires
        first.happens(),
        second.happens(),
        first.array == second.array,
        first.dtype == second.dtype,
        stays(first.states.last(), second.before(), first.array),
    ensures
        agree_on(first.output, second.output),
{
    let plan = ReadPlan { array: first.array, dtype: first.dtype };
    reading_gives_the_elements::<T>(plan, first.replies, first.output, first.states);
    equal_elements_read_the_same(first, second);
}

/// An operation leaves its operands as they are: what is read of an array before the operation is
/// read of it after the operation too.
pub proof fn an_operation_leaves_what_is_read<'a, T: Copy>(
    first: Reading<T>,
    o: Operation<'a, T>,
    second: Reading<T>,
)
    requires
        first.happens(),
        o.happens(),
        second.happens(),
        first.array == second.array,
        first.dtype == second.dtype,
        stays(first.before(), o.before(), first.array),
        stays(o.after(), second.before(), first.array),
    ensures
        agree_on(first.output, second.output),
        o.after().arrays[first.array] == o.before().arrays[first.array],
{
    lemma_operation(o);
    equal_elements_read_the_same(first, second);
}

/// An operator on arrays leaves its operands as they are: what is read of an array before it is
/// read of it after it too, unless a successful assignment has put its result in the array's place.
pub proof fn an_operator_leaves_what_is_read<'a, T: Copy>(
    first: Reading<T>,
    plan: OperatorPlan<()>,
    replies: Seq<Reply<()>>,
    output: Result<Array, OperatorError>,
    states: Seq<Memory<T>>,
    second: Reading<T>,
)
    requires
        first.happens(),
        plan.scalar::<'a>() is None,
        complete::<(), OperatorTask<'a, ()>>(plan, replies),
        operator_gives(plan, replies, output),
        run(typed_calls::<T>(operator_calls::<'a, ()>(plan, replies)), typed(replies), states),
        plan.replaced() matches Some(target) ==> states[0].arrays.contains_key(target),
        plan.replaced() != Some(first.array) || output is Err,
        second.happens(),
        first.array == second.array,
        first.dtype == second.dtype,
        stays(first.before(), states[0], first.array),
        stays(states.last(), second.before(), first.array),
    ensures
        agree_on(first.output, second.output),
        settled(states[0], states.last(), plan.replaced(), output),
{
    operators_carry_no_elements::<T>(plan, replies, output);
    operators_leave_the_other_arrays::<T>(typed_plan(plan), typed(replies), output, states);
    equal_elements_read_the_same(first, second);
}

/// A reshape to dimensions that are not negative succeeds only if they span as many elements as the
/// array has, and then does. Its result has the same type, the new shape and the same elements. The
/// array itself stays.
pub proof fn a_reshape_keeps_the_elements<'a, T: Copy>(
    o: Operation<'a, T>,
    a: RawArray,
    shape: &'a [i32],
)
    requires
        o.happens(),
        o.plan.op == (Op::Shape { op: ShapeOp::Reshape, a, shape: ffi_list(shape) }),
        o.before().arrays.contains_key(a),
        valid_shape(shape@),
    ensures
        o.output is Ok ==> {
            &&& product(shape@) == o.before().arrays[a].elements.len()
            &&& rearranges(
                o.before().arrays[a],
                o.after().arrays[o.result()],
                shape@,
                o.before().arrays[a].elements,
            )
        },
        product(shape@) == o.before().arrays[a].elements.len() && supports(
            o.before(),
            o.plan.stream,
            o.before().arrays[a].dtype,
        ) ==> o.output is Ok,
        o.after().arrays[a] == o.before().arrays[a],
{
    lemma_operation(o);
    assert(listed(ffi_list(shape)) =~= shape@);
}

/// Reshaping back to the old shape restores shape and elements, and cannot fail where the first
/// reshape did not for its stream.
pub proof fn reshaping_back_restores<'a, T: Copy>(
    o: Operation<'a, T>,
    a: RawArray,
    shape: &'a [i32],
    back: Operation<'a, T>,
    old: &'a [i32],
)
    requires
        o.happens(),
        o.plan.op == (Op::Shape { op: ShapeOp::Reshape, a, shape: ffi_list(shape) }),
        o.before().arrays.contains_key(a),
        valid_shape(shape@),
        o.output is Ok,
        back.happens(),
        back.plan.op == (Op::Shape {
            op: ShapeOp::Reshape,
            a: o.result(),
            shape: ffi_list(old),
        }),
        old@ == o.before().arrays[a].shape,
        stays(o.after(), back.before(), o.result()),
    ensures
        supports(back.before(), back.plan.stream, o.before().arrays[a].dtype) ==> back.output is Ok,
        back.output is Ok ==> rearranges(
            o.before().arrays[a],
            back.after().arrays[back.result()],
            o.before().arrays[a].shape,
            o.before().arrays[a].elements,
        ),
{
    a_reshape_keeps_the_elements(o, a, shape);
    lemma_operation(o);
    a_reshape_keeps_the_elements(back, o.result(), old);
}

/// The operation keeps the elements of `a` and their order, as reshaping, squeezing, expanding and
/// making contiguous do, and converting to the type that the array has.
pub open spec fn keeps_elements<T>(op: Op, a: RawArray, memory: Memory<T>) -> bool {
    match op {
        Op::Shape { op: ShapeOp::Reshape, a: b, shape } => b == a && valid_shape(listed(shape)),
        Op::Unary { op: UnaryOp::Squeeze, a: b } => b == a,
        Op::ExpandDims { a: b, axis } => b == a && 0 <= axis <= memory.arrays[a].shape.len(),
        Op::Contiguous { a: b, .. } => b == a,
        Op::Astype { a: b, dtype } => b == a && dtype == memory.arrays[a].dtype,
        _ => false,
    }
}

/// The result of an operation that keeps the elements of an array reads as the array does.
pub proof fn kept_elements_read_the_same<'a, T: Copy>(
    first: Reading<T>,
    o: Operation<'a, T>,
    second: Reading<T>,
)
    requires
        first.happens(),
        o.happens(),
        keeps_elements(o.plan.op, first.array, o.before()),
        stays(first.before(), o.before(), first.array),
        o.output is Ok,
        second.happens(),
        second.array == o.result(),
        second.dtype == first.dtype,
        stays(o.after(), second.before(), o.result()),
    ensures
        agree_on(first.output, second.output),
{
    lemma_operation(o);
    equal_elements_read_the_same(first, second);
}

/// A reversed index is within the reversed shape, and both span as many elements.
proof fn lemma_reverse(shape: Seq<i32>, index: Seq<int>)
    ensures
        product(shape.reverse()) == product(shape),
        valid_shape(shape) ==> valid_shape(shape.reverse()),
        in_bounds(shape, index) ==> in_bounds(shape.reverse(), index.reverse()),
        shape.reverse().reverse() == shape,
        index.reverse().reverse() == index,
    decreases shape.len(),
{
    assert(shape.reverse().reverse() =~= shape);
    assert(index.reverse().reverse() =~= index);
    if in_bounds(shape, index) {
        assert forall|i: int| 0 <= i < shape.reverse().len() implies 0
            <= #[trigger] index.reverse()[i] < shape.reverse()[i] by {
            let j = shape.len() - 1 - i;
            assert(index.reverse()[i] == index[j]);
            assert(0 <= index[j] < shape[j]);
        }
    }
    if valid_shape(shape) {
        assert forall|i: int| 0 <= i < shape.reverse().len() implies 0
            <= #[trigger] shape.reverse()[i] by {
            assert(0 <= shape[shape.len() - 1 - i]);
        }
    }
    if shape.len() > 0 {
        let rest = shape.skip(1);
        lemma_reverse(rest, Seq::empty());
        let last = seq![shape[0]];
        assert(shape.reverse() =~= rest.reverse() + last);
        lemma_product_concat(rest.reverse(), last);
        assert(last.skip(1) =~= Seq::<i32>::empty());
        assert(product(last.skip(1)) == 1);
        assert(product(last) == shape[0]);
        let (x, y) = (product(rest), shape[0] as int);
        assert(x * y == y * x) by (nonlinear_arith);
    } else {
        assert(shape.reverse() =~= shape);
    }
}

/// The element of a transposed array at an index is that of the array at the reversed index.
proof fn lemma_transposed<T>(shape: Seq<i32>, elements: Seq<T>, index: Seq<int>)
    requires
        valid_shape(shape),
        elements.len() == product(shape),
        in_bounds(shape, index),
    ensures
        0 <= rank(shape.reverse(), index.reverse()) < elements.len(),
        transposed(shape, elements)[rank(shape.reverse(), index.reverse())] == elements[rank(
            shape,
            index,
        )],
{
    lemma_reverse(shape, index);
    rank_inverts_unrank(shape.reverse(), index.reverse());
}

/// Transposing the elements twice brings them back.
proof fn lemma_transposed_twice<T>(shape: Seq<i32>, elements: Seq<T>)
    requires
        valid_shape(shape),
        elements.len() == product(shape),
    ensures
        transposed(shape.reverse(), transposed(shape, elements)) == elements,
{
    let turned = transposed(shape, elements);
    lemma_reverse(shape, Seq::empty());
    assert forall|r: int| 0 <= r < elements.len() implies transposed(shape.reverse(), turned)[r]
        == elements[r] by {
        let index = unrank(shape, r);
        unrank_inverts_rank(shape, r);
        lemma_transposed(shape, elements, index);
    }
    assert(transposed(shape.reverse(), turned) =~= elements);
}

/// A transpose reverses the axes: the shape, and the index by which each element is found. It
/// cannot fail where its stream supports the element type. The array itself stays.
pub proof fn a_transpose_reverses_the_axes<'a, T: Copy>(o: Operation<'a, T>, a: RawArray)
    requires
        o.happens(),
        o.plan.op == (Op::Unary { op: UnaryOp::Transpose, a }),
        o.before().arrays.contains_key(a),
    ensures
        supports(o.before(), o.plan.stream, o.before().arrays[a].dtype) ==> o.output is Ok,
        o.after().arrays[a] == o.before().arrays[a],
        o.output is Ok ==> {
            let (from, to) = (o.before().arrays[a], o.after().arrays[o.result()]);
            &&& to.dtype == from.dtype
            &&& to.shape == from.shape.reverse()
            &&& to.elements.len() == from.elements.len()
            &&& forall|index: Seq<int>|
                in_bounds(from.shape, index) ==> to.elements[rank(to.shape, index.reverse())]
                    == from.elements[#[trigger] rank(from.shape, index)]
        },
{
    lemma_operation(o);
    if o.output is Ok {
        let (from, to) = (o.before().arrays[a], o.after().arrays[o.result()]);
        assert forall|index: Seq<int>| in_bounds(from.shape, index) implies to.elements[rank(
            to.shape,
            index.reverse(),
        )] == from.elements[#[trigger] rank(from.shape, index)] by {
            lemma_transposed(from.shape, from.elements, index);
        }
    }
}

/// Transposing twice restores shape and elements.
pub proof fn transposing_twice_restores<'a, T: Copy>(
    o: Operation<'a, T>,
    a: RawArray,
    back: Operation<'a, T>,
)
    requires
        o.happens(),
        o.plan.op == (Op::Unary { op: UnaryOp::Transpose, a }),
        o.before().arrays.contains_key(a),
        o.output is Ok,
        back.happens(),
        back.plan.op == (Op::Unary { op: UnaryOp::Transpose, a: o.result() }),
        stays(o.after(), back.before(), o.result()),
    ensures
        supports(back.before(), back.plan.stream, o.before().arrays[a].dtype) ==> back.output is Ok,
        back.output is Ok ==> rearranges(
            o.before().arrays[a],
            back.after().arrays[back.result()],
            o.before().arrays[a].shape,
            o.before().arrays[a].elements,
        ),
{
    lemma_operation(o);
    lemma_operation(back);
    let from = o.before().arrays[a];
    lemma_reverse(from.shape, Seq::empty());
    lemma_transposed_twice(from.shape, from.elements);
}

/// The row-major position of an element of a matrix.
proof fn lemma_matrix_rank(n: i32, m: i32, i: int, j: int)
    requires
        0 <= i < n,
        0 <= j < m,
    ensures
        in_bounds(seq![n, m], seq![i, j]),
        rank(seq![n, m], seq![i, j]) == i * m + j,
        product(seq![n, m]) == n * m,
{
    let (shape, index) = (seq![n, m], seq![i, j]);
    assert(shape.skip(1) =~= seq![m]);
    assert(seq![m].skip(1) =~= Seq::<i32>::empty());
    assert(index.skip(1) =~= seq![j]);
    assert(product(Seq::<i32>::empty()) == 1);
    assert(product(seq![m]) == m);
    assert(rank(seq![m], seq![j]) == j) by {
        reveal_with_fuel(rank, 2);
    }
}

/// What is read of a transposed matrix follows its logical order and not that of the storage: the
/// element of row `j` and column `i` is the one that is read of the matrix in row `i` and column
/// `j`.
pub proof fn a_transposed_matrix_is_read_by_columns<'a, T: Copy>(
    first: Reading<T>,
    o: Operation<'a, T>,
    second: Reading<T>,
    n: i32,
    m: i32,
    i: int,
    j: int,
)
    requires
        first.happens(),
        first.before().arrays[first.array].dtype == first.dtype.code(),
        first.before().arrays[first.array].shape == seq![n, m],
        o.happens(),
        o.plan.op == (Op::Unary { op: UnaryOp::Transpose, a: first.array }),
        stays(first.before(), o.before(), first.array),
        o.output is Ok,
        second.happens(),
        second.dtype == first.dtype,
        second.array == o.result(),
        stays(o.after(), second.before(), o.result()),
        0 <= i < n,
        0 <= j < m,
    ensures
        first.output is Ok,
        second.output is Ok,
        first.output->Ok_0@.len() == n * m,
        second.output->Ok_0@.len() == n * m,
        second.output->Ok_0@[j * n + i] == first.output->Ok_0@[i * m + j],
{
    lemma_operation(o);
    lemma_reading(first);
    lemma_reading(second);
    let from = o.before().arrays[first.array];
    a_transpose_reverses_the_axes(o, first.array);
    lemma_matrix_rank(n, m, i, j);
    lemma_matrix_rank(m, n, j, i);
    assert(from.valid(o.before().setting.element));
    assert(seq![n, m].reverse() =~= seq![m, n]);
    assert(seq![i, j].reverse() =~= seq![j, i]);
    lemma_transposed(from.shape, from.elements, seq![i, j]);
}

/// Removing the axes of length one leaves none to remove.
proof fn lemma_squeezed_again(shape: Seq<i32>)
    ensures
        squeezed(squeezed(shape)) == squeezed(shape),
    decreases shape.len(),
{
    if shape.len() > 0 {
        let rest = squeezed(shape.skip(1));
        lemma_squeezed_again(shape.skip(1));
        if shape[0] != 1 {
            assert((seq![shape[0]] + rest).skip(1) =~= rest);
        }
    }
}

/// An axis of length one that was put in is removed again.
proof fn lemma_squeezed_inserted(shape: Seq<i32>, axis: int)
    requires
        0 <= axis <= shape.len(),
    ensures
        squeezed(shape.insert(axis, 1)) == squeezed(shape),
    decreases shape.len(),
{
    let wide = shape.insert(axis, 1);
    if axis == 0 {
        assert(wide.skip(1) =~= shape);
    } else {
        assert(wide.skip(1) =~= shape.skip(1).insert(axis - 1, 1));
        lemma_squeezed_inserted(shape.skip(1), axis - 1);
    }
}

/// A squeeze removes the axes of length one and keeps the elements. It cannot fail where its stream
/// supports the element type. The array itself stays.
pub proof fn a_squeeze_keeps_the_elements<'a, T: Copy>(o: Operation<'a, T>, a: RawArray)
    requires
        o.happens(),
        o.plan.op == (Op::Unary { op: UnaryOp::Squeeze, a }),
        o.before().arrays.contains_key(a),
    ensures
        supports(o.before(), o.plan.stream, o.before().arrays[a].dtype) ==> o.output is Ok,
        o.after().arrays[a] == o.before().arrays[a],
        o.output is Ok ==> rearranges(
            o.before().arrays[a],
            o.after().arrays[o.result()],
            squeezed(o.before().arrays[a].shape),
            o.before().arrays[a].elements,
        ),
{
    lemma_operation(o);
}

/// Squeezing a squeezed array changes neither shape nor elements.
pub proof fn squeezing_again_changes_nothing<'a, T: Copy>(
    o: Operation<'a, T>,
    a: RawArray,
    again: Operation<'a, T>,
)
    requires
        o.happens(),
        o.plan.op == (Op::Unary { op: UnaryOp::Squeeze, a }),
        o.before().arrays.contains_key(a),
        o.output is Ok,
        again.happens(),
        again.plan.op == (Op::Unary { op: UnaryOp::Squeeze, a: o.result() }),
        stays(o.after(), again.before(), o.result()),
        again.output is Ok,
    ensures
        rearranges(
            o.after().arrays[o.result()],
            again.after().arrays[again.result()],
            o.after().arrays[o.result()].shape,
            o.after().arrays[o.result()].elements,
        ),
{
    lemma_operation(o);
    lemma_operation(again);
    lemma_squeezed_again(o.before().arrays[a].shape);
}

/// `expand_dims` puts in an axis of length one and keeps the elements. It cannot fail for a
/// position within the shape where its stream supports the element type. The array itself stays.
pub proof fn an_expansion_keeps_the_elements<'a, T: Copy>(
    o: Operation<'a, T>,
    a: RawArray,
    axis: i32,
)
    requires
        o.happens(),
        o.plan.op == (Op::ExpandDims { a, axis }),
        o.before().arrays.contains_key(a),
        0 <= axis <= o.before().arrays[a].shape.len(),
    ensures
        supports(o.before(), o.plan.stream, o.before().arrays[a].dtype) ==> o.output is Ok,
        o.after().arrays[a] == o.before().arrays[a],
        o.output is Ok ==> rearranges(
            o.before().arrays[a],
            o.after().arrays[o.result()],
            o.before().arrays[a].shape.insert(axis as int, 1),
            o.before().arrays[a].elements,
        ),
{
    lemma_operation(o);
}

/// Squeezing an expanded array gives the shape and the elements that squeezing the array itself
/// gives.
pub proof fn a_squeeze_undoes_an_expansion<'a, T: Copy>(
    o: Operation<'a, T>,
    a: RawArray,
    axis: i32,
    squeeze: Operation<'a, T>,
)
    requires
        o.happens(),
        o.plan.op == (Op::ExpandDims { a, axis }),
        o.before().arrays.contains_key(a),
        0 <= axis <= o.before().arrays[a].shape.len(),
        o.output is Ok,
        squeeze.happens(),
        squeeze.plan.op == (Op::Unary { op: UnaryOp::Squeeze, a: o.result() }),
        stays(o.after(), squeeze.before(), o.result()),
        squeeze.output is Ok,
    ensures
        rearranges(
            o.before().arrays[a],
            squeeze.after().arrays[squeeze.result()],
            squeezed(o.before().arrays[a].shape),
            o.before().arrays[a].elements,
        ),
{
    lemma_operation(o);
    lemma_operation(squeeze);
    lemma_squeezed_inserted(o.before().arrays[a].shape, axis as int);
}

/// An array can be broadcast to dimensions that are not negative exactly if its axes, from the last
/// one, are as long as the new ones or of length one. Along those its elements are repeated. The
/// array itself stays.
pub proof fn a_broadcast_repeats_the_elements<'a, T: Copy>(
    o: Operation<'a, T>,
    a: RawArray,
    shape: &'a [i32],
)
    requires
        o.happens(),
        o.plan.op == (Op::Shape { op: ShapeOp::BroadcastTo, a, shape: ffi_list(shape) }),
        o.before().arrays.contains_key(a),
        valid_shape(shape@),
    ensures
        o.output is Ok ==> {
            &&& stretches(o.before().arrays[a].shape, shape@)
            &&& rearranges(
                o.before().arrays[a],
                o.after().arrays[o.result()],
                shape@,
                stretched(o.before().arrays[a].shape, shape@, o.before().arrays[a].elements),
            )
        },
        stretches(o.before().arrays[a].shape, shape@) && supports(
            o.before(),
            o.plan.stream,
            o.before().arrays[a].dtype,
        ) ==> o.output is Ok,
        o.after().arrays[a] == o.before().arrays[a],
{
    lemma_operation(o);
    assert(listed(ffi_list(shape)) =~= shape@);
}

/// `zeros` and `ones` give an array of the given type and shape, whose elements are all zero or all
/// one. They cannot fail for dimensions that are not negative where the stream supports the type.
pub proof fn fills_are_uniform<'a, T: Copy>(
    o: Operation<'a, T>,
    op: FillOp,
    shape: &'a [i32],
    dtype: Dtype,
)
    requires
        o.happens(),
        o.plan.op == (Op::Fill { op, shape: ffi_list(shape), dtype: dtype.code() }),
    ensures
        valid_shape(shape@) && supports(o.before(), o.plan.stream, dtype.code())
            ==> o.output is Ok,
        o.output is Ok ==> filled(
            o.after().arrays[o.result()],
            dtype.code(),
            shape@,
            match op {
                FillOp::Zeros => o.before().setting.zero,
                FillOp::Ones => o.before().setting.one,
            },
        ),
{
    lemma_operation(o);
    assert(listed(ffi_list(shape)) =~= shape@);
}

/// `full` gives an array of the given type and shape, whose elements are all the given value. It
/// cannot fail for dimensions that are not negative where the stream supports the type.
pub proof fn full_is_uniform<'a, T: Copy>(
    plan: FullPlan<'a, T>,
    replies: Seq<Reply<T>>,
    output: Result<Array, Error>,
    states: Seq<Memory<T>>,
)
    requires
        run(full_calls(plan, replies), replies, states),
        <FullTask<'a, T> as Task<'a, T>>::gives(plan, replies, output),
        states[0].setting.element == plan.dtype.code(),
    ensures
        valid_shape(plan.shape@) && supports(states[0], plan.stream, plan.dtype.code())
            ==> output is Ok,
        output matches Ok(array) ==> filled(
            states.last().arrays[array.raw()],
            plan.dtype.code(),
            plan.shape@,
            plan.value,
        ),
{
    filling_leaves_the_other_arrays(plan, replies, output, states);
    let calls = full_calls(plan, replies);
    let vals = replies[1]->Array_0;
    let later = after(replies, 2);
    assert(later[1] == replies[3] && later[2] == replies[4]);
    assert(listed(ffi_list(plan.shape)) =~= plan.shape@);
    lemma_steps(calls, replies, states, 5);
    reveal_with_fuel(steps, 6);
    assert(states[4].arrays[vals].elements == seq![plan.value]);
    assert(seq![plan.value][0] == plan.value);
    assert(acts(calls[5], replies[5], states[5], states[6]));
}

/// A conversion gives an array of the wanted type and the same shape, and cannot fail where its
/// stream supports both types. The elements stay what they are in `T` if that is the wanted type
/// and holds them, or if the array has the wanted type already. The array itself stays.
pub proof fn a_conversion_keeps_shape_and_values<'a, T: Copy>(
    o: Operation<'a, T>,
    a: RawArray,
    dtype: Dtype,
)
    requires
        o.happens(),
        o.plan.op == (Op::Astype { a, dtype: dtype.code() }),
        o.before().arrays.contains_key(a),
    ensures
        supports(o.before(), o.plan.stream, o.before().arrays[a].dtype) && supports(
            o.before(),
            o.plan.stream,
            dtype.code(),
        ) ==> o.output is Ok,
        o.after().arrays[a] == o.before().arrays[a],
        o.output is Ok ==> {
            let (from, to) = (o.before().arrays[a], o.after().arrays[o.result()]);
            &&& to.dtype == dtype.code()
            &&& to.shape == from.shape
            &&& dtype.code() == from.dtype || dtype.code() == o.before().setting.element
                && from.in_range ==> to.elements == from.elements
        },
{
    lemma_operation(o);
}

/// Converting what has been converted to the same type once more changes nothing.
pub proof fn converting_again_changes_nothing<'a, T: Copy>(
    o: Operation<'a, T>,
    a: RawArray,
    dtype: Dtype,
    again: Operation<'a, T>,
)
    requires
        o.happens(),
        o.plan.op == (Op::Astype { a, dtype: dtype.code() }),
        o.before().arrays.contains_key(a),
        o.output is Ok,
        again.happens(),
        again.plan.op == (Op::Astype { a: o.result(), dtype: dtype.code() }),
        stays(o.after(), again.before(), o.result()),
        again.output is Ok,
    ensures
        again.after().arrays[again.result()].dtype == o.after().arrays[o.result()].dtype,
        again.after().arrays[again.result()].shape == o.after().arrays[o.result()].shape,
        again.after().arrays[again.result()].elements == o.after().arrays[o.result()].elements,
{
    lemma_operation(o);
    lemma_operation(again);
}

/// Reading the value of an array with one element gives what converting the array to `T` and
/// reading that gives, if `T` holds the value. An array of another type is not refused.
pub proof fn an_item_is_the_converted_value<'a, T: Copy>(
    array: RawArray,
    item_replies: Seq<Reply<T>>,
    item: Result<T, NotScalar>,
    item_states: Seq<Memory<T>>,
    o: Operation<'a, T>,
    read: Reading<T>,
)
    requires
        run(item_calls::<'a, T>(array, item_replies), item_replies, item_states),
        <ItemTask<'a, T> as Task<'a, T>>::gives(array, item_replies, item),
        stays(item_states[0], o.before(), array),
        item_states[0].arrays[array].elements.len() == 1,
        item_states[0].arrays[array].in_range,
        o.happens(),
        o.plan.op == (Op::Astype { a: array, dtype: read.dtype.code() }),
        o.output is Ok,
        read.happens(),
        read.array == o.result(),
        stays(o.after(), read.before(), o.result()),
    ensures
        item is Ok,
        read.output is Ok,
        read.output->Ok_0@ == seq![item->Ok_0],
{
    reading_an_item_gives_the_element::<T>(array, item_replies, item, item_states);
    lemma_operation(o);
    lemma_reading(read);
}

/// Reading the value of an array with one element gives the only element that reading its elements
/// gives.
pub proof fn an_item_is_the_only_element<'a, T: Copy>(
    array: RawArray,
    item_replies: Seq<Reply<T>>,
    item: Result<T, NotScalar>,
    item_states: Seq<Memory<T>>,
    read: Reading<T>,
)
    requires
        run(item_calls::<'a, T>(array, item_replies), item_replies, item_states),
        <ItemTask<'a, T> as Task<'a, T>>::gives(array, item_replies, item),
        read.happens(),
        read.array == array,
        stays(item_states[0], read.before(), array),
        item_states[0].arrays[array].elements.len() == 1,
        item_states[0].arrays[array].dtype == read.dtype.code(),
    ensures
        item is Ok,
        read.output is Ok,
        read.output->Ok_0@ == seq![item->Ok_0],
{
    reading_an_item_gives_the_element::<T>(array, item_replies, item, item_states);
    lemma_reading(read);
}

/// Evaluation only materializes: afterwards the array has its buffer, every array is still the
/// same, and those that were evaluated before keep their buffers.
pub proof fn evaluation_only_materializes<'a, T: Copy + 'a>(
    array: RawArray,
    replies: Seq<Reply<()>>,
    states: Seq<Memory<T>>,
)
    requires
        run(
            typed_calls::<T>(<EvalTask<'a, ()> as Task<'a, ()>>::calls(array, replies)),
            typed(replies),
            states,
        ),
        states[0].arrays.contains_key(array),
    ensures
        unchanged(states[0], states.last()),
        states.last().arrays[array].buffer is Some,
        forall|h: RawArray| #[trigger]
            states[0].arrays.contains_key(h) && states[0].arrays[h].buffer is Some
                ==> states.last().arrays[h] == states[0].arrays[h],
{
    queries_carry_no_elements::<T>(array, CountPlan::Size { array }, replies);
    let calls = <EvalTask<'a, T> as Task<'a, T>>::calls(array, typed(replies));
    lemma_steps(calls, typed(replies), states, 2);
    reveal_with_fuel(steps, 3);
}

/// Evaluating an evaluated array changes nothing.
pub proof fn evaluating_again_changes_nothing<'a, T: Copy + 'a>(
    array: RawArray,
    replies: Seq<Reply<()>>,
    states: Seq<Memory<T>>,
)
    requires
        run(
            typed_calls::<T>(<EvalTask<'a, ()> as Task<'a, ()>>::calls(array, replies)),
            typed(replies),
            states,
        ),
        states[0].arrays.contains_key(array),
        states[0].arrays[array].buffer is Some,
    ensures
        states.last() == states[0],
{
    queries_carry_no_elements::<T>(array, CountPlan::Size { array }, replies);
    let calls = <EvalTask<'a, T> as Task<'a, T>>::calls(array, typed(replies));
    lemma_steps(calls, typed(replies), states, 2);
    reveal_with_fuel(steps, 3);
}

/// What is read of an array is the same with and without an evaluation before, be it of that array
/// or of another one.
pub proof fn an_evaluation_changes_no_read<'a, T: Copy + 'a>(
    first: Reading<T>,
    array: RawArray,
    replies: Seq<Reply<()>>,
    states: Seq<Memory<T>>,
    second: Reading<T>,
)
    requires
        first.happens(),
        run(
            typed_calls::<T>(<EvalTask<'a, ()> as Task<'a, ()>>::calls(array, replies)),
            typed(replies),
            states,
        ),
        states[0].arrays.contains_key(array),
        second.happens(),
        first.array == second.array,
        first.dtype == second.dtype,
        stays(first.before(), states[0], first.array),
        stays(states.last(), second.before(), first.array),
    ensures
        agree_on(first.output, second.output),
{
    evaluation_only_materializes::<T>(array, replies, states);
    equal_elements_read_the_same(first, second);
}

/// The value that is read of an array is the same as long as the array stays, whether it has been
/// evaluated or not.
pub proof fn an_item_is_the_same_again<'a, T: Copy>(
    array: RawArray,
    first_replies: Seq<Reply<T>>,
    first: Result<T, NotScalar>,
    first_states: Seq<Memory<T>>,
    second_replies: Seq<Reply<T>>,
    second: Result<T, NotScalar>,
    second_states: Seq<Memory<T>>,
)
    requires
        run(item_calls::<'a, T>(array, first_replies), first_replies, first_states),
        <ItemTask<'a, T> as Task<'a, T>>::gives(array, first_replies, first),
        run(item_calls::<'a, T>(array, second_replies), second_replies, second_states),
        <ItemTask<'a, T> as Task<'a, T>>::gives(array, second_replies, second),
        stays(first_states[0], second_states[0], array),
    ensures
        first == second,
{
    reading_an_item_gives_the_element::<T>(array, first_replies, first, first_states);
    reading_an_item_gives_the_element::<T>(array, second_replies, second, second_states);
    if let (Ok(x), Ok(y)) = (first, second) {
        assert(seq![x][0] == x && seq![y][0] == y);
    }
}

/// Releasing an array takes that array and leaves all others, also those that were computed from
/// it.
pub proof fn releasing_leaves_the_other_arrays<T: Copy>(
    array: RawArray,
    reply: Reply<()>,
    memory: Memory<T>,
    next: Memory<T>,
)
    requires
        acts(typed_call::<T>(Call::FreeArray { array }), typed_reply(reply), memory, next),
    ensures
        !next.arrays.contains_key(array),
        forall|h: RawArray| #[trigger]
            memory.arrays.contains_key(h) && h != array ==> next.arrays.contains_key(h)
                && next.arrays[h] == memory.arrays[h],
{
}

/// `contiguous` gives an array of the same type, shape and elements, which is row-contiguous once
/// it is evaluated, and is found to be so.
pub proof fn contiguous_gives_a_row_contiguous_array<'a, T: Copy + 'a>(
    o: Operation<'a, T>,
    a: RawArray,
    eval_replies: Seq<Reply<()>>,
    evaluating: Seq<Memory<T>>,
    ask_replies: Seq<Reply<()>>,
    answer: bool,
    asking: Seq<Memory<T>>,
)
    requires
        o.happens(),
        o.plan.op == (Op::Contiguous { a, allow_col_major: false }),
        o.before().arrays.contains_key(a),
        o.output is Ok,
        stays(o.after(), evaluating[0], o.result()),
        run(
            typed_calls::<T>(<EvalTask<'a, ()> as Task<'a, ()>>::calls(o.result(), eval_replies)),
            typed(eval_replies),
            evaluating,
        ),
        asking[0].arrays.contains_key(o.result()),
        asking[0].arrays[o.result()] == evaluating.last().arrays[o.result()],
        complete::<(), LayoutTask<'a, ()>>(o.result(), ask_replies),
        <LayoutTask<'a, ()> as Task<'a, ()>>::gives(o.result(), ask_replies, answer),
        run(
            typed_calls::<T>(layout_calls::<'a, ()>(o.result(), ask_replies)),
            typed(ask_replies),
            asking,
        ),
    ensures
        answer,
        row_contiguous(
            evaluating.last().arrays[o.result()].shape,
            evaluating.last().arrays[o.result()].tensor().strides,
        ),
        rearranges(
            o.before().arrays[a],
            evaluating.last().arrays[o.result()],
            o.before().arrays[a].shape,
            o.before().arrays[a].elements,
        ),
        o.after().arrays[a] == o.before().arrays[a],
{
    let b = o.result();
    lemma_operation(o);
    evaluation_only_materializes::<T>(b, eval_replies, evaluating);
    queries_carry_no_elements::<T>(b, CountPlan::Size { array: b }, eval_replies);
    queries_carry_no_elements::<T>(b, CountPlan::Size { array: b }, ask_replies);
    let eval = <EvalTask<'a, T> as Task<'a, T>>::calls(b, typed(eval_replies));
    lemma_steps(eval, typed(eval_replies), evaluating, 2);
    reveal_with_fuel(steps, 3);
    assert(evaluating[1].arrays.contains_key(b));
    let untyped = <LayoutTask<'a, ()> as Task<'a, ()>>::calls(b, ask_replies);
    assert(untyped[1] is Shape && ask_replies[1] is Dims);
    assert(untyped[2] is Strides && ask_replies[2] is Strides);
    let calls = layout_calls::<'a, T>(b, typed(ask_replies));
    lemma_steps(calls, typed(ask_replies), asking, 3);
    reveal_with_fuel(steps, 4);
    assert(untyped[0] is Ndim && ask_replies[0] is Count);
    asking[0].arrays[b].lemma_lists_are_whole();
}

/// What is asked of an array is what MLX keeps of it, and fits together: there are as many
/// dimensions and as many strides as it has axes, and the dimensions span as many elements as it
/// has. Asking changes nothing, so asking again gives the same.
pub proof fn properties_agree<'a, T: Copy + 'a>(
    array: RawArray,
    memory: Memory<T>,
    size: (Seq<Reply<()>>, usize, Seq<Memory<T>>),
    ndim: (Seq<Reply<()>>, usize, Seq<Memory<T>>),
    shape: (Seq<Reply<()>>, Vec<i32>, Seq<Memory<T>>),
    strides: (Seq<Reply<()>>, Vec<usize>, Seq<Memory<T>>),
)
    requires
        memory.arrays.contains_key(array),
        size.2[0] == memory,
        ndim.2[0] == memory,
        shape.2[0] == memory,
        strides.2[0] == memory,
        complete::<(), CountTask<'a, ()>>(CountPlan::Size { array }, size.0),
        <CountTask<'a, ()> as Task<'a, ()>>::gives(CountPlan::Size { array }, size.0, size.1),
        run(
            typed_calls::<T>(
                <CountTask<'a, ()> as Task<'a, ()>>::calls(CountPlan::Size { array }, size.0),
            ),
            typed(size.0),
            size.2,
        ),
        complete::<(), CountTask<'a, ()>>(CountPlan::Ndim { array }, ndim.0),
        <CountTask<'a, ()> as Task<'a, ()>>::gives(CountPlan::Ndim { array }, ndim.0, ndim.1),
        run(
            typed_calls::<T>(
                <CountTask<'a, ()> as Task<'a, ()>>::calls(CountPlan::Ndim { array }, ndim.0),
            ),
            typed(ndim.0),
            ndim.2,
        ),
        complete::<(), ShapeTask<'a, ()>>(array, shape.0),
        <ShapeTask<'a, ()> as Task<'a, ()>>::gives(array, shape.0, shape.1),
        run(
            typed_calls::<T>(<ShapeTask<'a, ()> as Task<'a, ()>>::calls(array, shape.0)),
            typed(shape.0),
            shape.2,
        ),
        complete::<(), StridesTask<'a, ()>>(array, strides.0),
        <StridesTask<'a, ()> as Task<'a, ()>>::gives(array, strides.0, strides.1),
        run(
            typed_calls::<T>(<StridesTask<'a, ()> as Task<'a, ()>>::calls(array, strides.0)),
            typed(strides.0),
            strides.2,
        ),
    ensures
        shape.1@.len() == ndim.1,
        strides.1@.len() == ndim.1,
        product(shape.1@) == size.1,
        valid_shape(shape.1@),
        size.1 == memory.arrays[array].elements.len(),
        ndim.1 == memory.arrays[array].shape.len(),
        shape.1@ == memory.arrays[array].shape,
        memory.arrays[array].buffer is Some ==> strides.1@
            == memory.arrays[array].tensor().strides,
        size.2.last() == memory,
        ndim.2.last() == memory,
        shape.2.last() == memory,
        strides.2.last() == memory,
{
    let stored = memory.arrays[array];
    queries_carry_no_elements::<T>(array, CountPlan::Size { array }, size.0);
    queries_carry_no_elements::<T>(array, CountPlan::Ndim { array }, ndim.0);
    queries_carry_no_elements::<T>(array, CountPlan::Ndim { array }, shape.0);
    queries_carry_no_elements::<T>(array, CountPlan::Ndim { array }, strides.0);
    let calls = <CountTask<'a, ()> as Task<'a, ()>>::calls(CountPlan::Size { array }, size.0);
    assert(calls[0] is Size && size.0[0] is Count);
    let calls = <CountTask<'a, T> as Task<'a, T>>::calls(CountPlan::Size { array }, typed(size.0));
    assert(acts(calls[0], typed(size.0)[0], size.2[0], size.2[1]));
    let calls = <CountTask<'a, ()> as Task<'a, ()>>::calls(CountPlan::Ndim { array }, ndim.0);
    assert(calls[0] is Ndim && ndim.0[0] is Count);
    let calls = <CountTask<'a, T> as Task<'a, T>>::calls(CountPlan::Ndim { array }, typed(ndim.0));
    assert(acts(calls[0], typed(ndim.0)[0], ndim.2[0], ndim.2[1]));
    assert(stored.valid(memory.setting.element));
    stored.lemma_lists_are_whole();
    let calls = <ShapeTask<'a, ()> as Task<'a, ()>>::calls(array, shape.0);
    assert(calls[0] is Ndim && shape.0[0] is Count);
    assert(calls[1] is Shape && shape.0[1] is Dims);
    let calls = <ShapeTask<'a, T> as Task<'a, T>>::calls(array, typed(shape.0));
    lemma_steps(calls, typed(shape.0), shape.2, 2);
    reveal_with_fuel(steps, 3);
    let calls = <StridesTask<'a, ()> as Task<'a, ()>>::calls(array, strides.0);
    assert(calls[0] is Ndim && strides.0[0] is Count);
    assert(calls[1] is Strides && strides.0[1] is Strides);
    let calls = <StridesTask<'a, T> as Task<'a, T>>::calls(array, typed(strides.0));
    lemma_steps(calls, typed(strides.0), strides.2, 2);
    reveal_with_fuel(steps, 3);
}

/// An elementwise operation on two arrays gives an array of the shape that theirs stretch to.
/// Arrays whose shapes do not go together are refused.
pub proof fn elementwise_results_have_the_joined_shape<'a, T: Copy>(
    o: Operation<'a, T>,
    op: BinaryOp,
    a: RawArray,
    b: RawArray,
)
    requires
        o.happens(),
        op != BinaryOp::Matmul,
        o.plan.op == (Op::Binary { op, a, b }),
        o.before().arrays.contains_key(a),
        o.before().arrays.contains_key(b),
    ensures
        o.output is Ok ==> {
            let (x, y) = (o.before().arrays[a].shape, o.before().arrays[b].shape);
            joins(x, y) && o.after().arrays[o.result()].shape == joined(x, y)
        },
        !joins(o.before().arrays[a].shape, o.before().arrays[b].shape) ==> o.output is Err,
        o.after().arrays[a] == o.before().arrays[a],
        o.after().arrays[b] == o.before().arrays[b],
{
    lemma_operation(o);
}

/// An elementwise operation on one array gives an array of the same shape.
pub proof fn elementwise_results_keep_the_shape<'a, T: Copy>(
    o: Operation<'a, T>,
    op: UnaryOp,
    a: RawArray,
)
    requires
        o.happens(),
        op != UnaryOp::Transpose,
        op != UnaryOp::Squeeze,
        o.plan.op == (Op::Unary { op, a }),
        o.before().arrays.contains_key(a),
        o.output is Ok,
    ensures
        o.after().arrays[o.result()].shape == o.before().arrays[a].shape,
        o.after().arrays[a] == o.before().arrays[a],
{
    lemma_operation(o);
}

/// Comparisons and logical operations, `all`, `any` and `array_equal` give `bool` arrays, whatever
/// their operands are.
pub proof fn answers_are_bool<'a, T: Copy>(o: Operation<'a, T>, a: RawArray, b: RawArray)
    requires
        o.happens(),
        o.output is Ok,
        o.before().arrays.contains_key(a),
        o.before().arrays.contains_key(b),
        match o.plan.op {
            Op::Binary { op, a: x, b: y } => gives_bool(op) && x == a && y == b,
            Op::Unary { op, a: x } => op == UnaryOp::LogicalNot && x == a,
            Op::Reduce { op, a: x, .. } => reduces_to_bool(op) && x == a,
            Op::ReduceAxes { op, a: x, axes, .. } => {
                &&& reduces_to_bool(op)
                &&& x == a
                &&& are_axes(listed(axes), o.before().arrays[a].shape.len())
            },
            Op::ArrayEqual { .. } => true,
            _ => false,
        },
    ensures
        o.after().arrays[o.result()].dtype == Dtype::Bool.code(),
{
    lemma_operation(o);
}

/// Sums, differences and products have the type that both operands are promoted to: operands of
/// one type keep it, `int32` with `float32` gives `float32`, and `float32` with `float64` gives
/// `float64`.
pub proof fn arithmetic_promotes<'a, T: Copy>(
    o: Operation<'a, T>,
    op: BinaryOp,
    a: RawArray,
    b: RawArray,
)
    requires
        o.happens(),
        promotes(op),
        o.plan.op == (Op::Binary { op, a, b }),
        o.before().arrays.contains_key(a),
        o.before().arrays.contains_key(b),
        o.output is Ok,
    ensures
        promoted(
            o.before().arrays[a].dtype,
            o.before().arrays[b].dtype,
            o.after().arrays[o.result()].dtype,
        ),
{
    lemma_operation(o);
}

/// A reduction over all axes gives an array without axes, or one whose axes all have length one if
/// they are kept.
pub proof fn a_reduction_collapses_the_shape<'a, T: Copy>(
    o: Operation<'a, T>,
    op: ReduceOp,
    a: RawArray,
    keepdims: bool,
)
    requires
        o.happens(),
        o.plan.op == (Op::Reduce { op, a, keepdims }),
        o.before().arrays.contains_key(a),
        o.output is Ok,
    ensures
        o.after().arrays[o.result()].shape == collapsed(o.before().arrays[a].shape, keepdims),
        o.after().arrays[o.result()].elements.len() == 1,
        o.after().arrays[a] == o.before().arrays[a],
{
    lemma_operation(o);
    lemma_collapsed(o.before().arrays[a].shape, keepdims);
}

/// A collapsed shape spans one element.
proof fn lemma_collapsed(shape: Seq<i32>, keepdims: bool)
    ensures
        product(collapsed(shape, keepdims)) == 1,
    decreases shape.len(),
{
    if keepdims && shape.len() > 0 {
        lemma_collapsed(shape.skip(1), true);
        assert(collapsed(shape, true).skip(1) =~= collapsed(shape.skip(1), true));
    }
}

/// A reduction over given axes removes them, or keeps them with length one. Reducing over no axes
/// leaves the shape as it is.
pub proof fn a_reduction_over_axes_removes_them<'a, T: Copy>(
    o: Operation<'a, T>,
    op: ReduceOp,
    a: RawArray,
    axes: &'a [i32],
    keepdims: bool,
)
    requires
        o.happens(),
        o.plan.op == (Op::ReduceAxes { op, a, axes: ffi_list(axes), keepdims }),
        o.before().arrays.contains_key(a),
        are_axes(axes@, o.before().arrays[a].shape.len()),
        o.output is Ok,
    ensures
        o.after().arrays[o.result()].shape == reduced(o.before().arrays[a].shape, axes@, keepdims),
        axes@.len() == 0 ==> o.after().arrays[o.result()].shape == o.before().arrays[a].shape,
        o.after().arrays[a] == o.before().arrays[a],
{
    lemma_operation(o);
    assert(listed(ffi_list(axes)) =~= axes@);
    if axes@.len() == 0 {
        assert(axes@ =~= Seq::<i32>::empty());
        reducing_no_axes_keeps_the_shape(o.before().arrays[a].shape, keepdims);
    }
}

/// `array_equal` gives a single `bool`, whatever the shapes of its operands are.
pub proof fn whole_arrays_compare_to_one_answer<'a, T: Copy>(
    o: Operation<'a, T>,
    a: RawArray,
    b: RawArray,
    equal_nan: bool,
)
    requires
        o.happens(),
        o.plan.op == (Op::ArrayEqual { a, b, equal_nan }),
        o.output is Ok,
    ensures
        o.after().arrays[o.result()].shape == Seq::<i32>::empty(),
        o.after().arrays[o.result()].elements.len() == 1,
        o.after().arrays[o.result()].dtype == Dtype::Bool.code(),
{
    lemma_operation(o);
    lemma_collapsed(Seq::empty(), false);
}

/// A matrix product contracts the inner axes, and refuses operands whose inner lengths differ or
/// whose other axes do not go together.
pub proof fn a_matrix_product_contracts_the_inner_axes<'a, T: Copy>(
    o: Operation<'a, T>,
    a: RawArray,
    b: RawArray,
)
    requires
        o.happens(),
        o.plan.op == (Op::Binary { op: BinaryOp::Matmul, a, b }),
        o.before().arrays.contains_key(a),
        o.before().arrays.contains_key(b),
        o.before().arrays[a].shape.len() > 0,
        o.before().arrays[b].shape.len() > 0,
    ensures
        o.output is Ok ==> {
            let (x, y) = (o.before().arrays[a].shape, o.before().arrays[b].shape);
            multiplies(x, y) && o.after().arrays[o.result()].shape == multiplied(x, y)
        },
        !multiplies(o.before().arrays[a].shape, o.before().arrays[b].shape) ==> o.output is Err,
        o.after().arrays[a] == o.before().arrays[a],
        o.after().arrays[b] == o.before().arrays[b],
{
    lemma_operation(o);
}

/// An operation that needs float64, for an operand or for its result, fails on the GPU.
pub proof fn float64_fails_on_the_gpu<'a, T: Copy>(o: Operation<'a, T>)
    requires
        o.happens(),
        runs_on(o.before(), o.plan.stream, Device::Gpu),
        needs_float64(o.plan.op, o.before()),
    ensures
        o.output is Err,
        o.after().arrays == o.before().arrays,
{
    lemma_operation(o);
}

/// An operator on two arrays gives an array of the shape that theirs stretch to, with the type that
/// they are promoted to unless it divides, and fails if their shapes do not go together.
pub proof fn operators_have_the_joined_shape<'a, T: Copy>(
    plan: OperatorPlan<()>,
    op: Arith,
    a: RawArray,
    b: RawArray,
    replies: Seq<Reply<()>>,
    output: Result<Array, OperatorError>,
    states: Seq<Memory<T>>,
)
    requires
        plan == (OperatorPlan::<()>::Arrays { op, lhs: a, rhs: b }) || plan
            == (OperatorPlan::<()>::Assign { op, target: a, rhs: b }),
        complete::<(), OperatorTask<'a, ()>>(plan, replies),
        operator_gives(plan, replies, output),
        run(typed_calls::<T>(operator_calls::<'a, ()>(plan, replies)), typed(replies), states),
        states[0].arrays.contains_key(a),
        states[0].arrays.contains_key(b),
    ensures
        output matches Ok(array) ==> {
            let (x, y) = (states[0].arrays[a], states[0].arrays[b]);
            let result = states.last().arrays[array.raw()];
            &&& joins(x.shape, y.shape)
            &&& result.shape == joined(x.shape, y.shape)
            &&& op != Arith::Divide ==> promoted(x.dtype, y.dtype, result.dtype)
        },
        !joins(states[0].arrays[a].shape, states[0].arrays[b].shape) ==> output is Err,
{
    operators_carry_no_elements::<T>(plan, replies, output);
    operators_yield_what_operations_yield::<T>(typed_plan(plan), typed(replies), output, states);
}

/// An operator on an array and a plain value gives an array of the array's shape: the value is
/// spread over it, whatever the shape is.
pub proof fn a_value_is_spread_over_the_array<'a, T: Copy>(
    plan: OperatorPlan<T>,
    a: RawArray,
    replies: Seq<Reply<T>>,
    output: Result<Array, OperatorError>,
    states: Seq<Memory<T>>,
)
    requires
        match plan {
            OperatorPlan::ScalarRight { lhs, .. } => lhs == a,
            OperatorPlan::ScalarLeft { rhs, .. } => rhs == a,
            OperatorPlan::AssignScalar { target, .. } => target == a,
            _ => false,
        },
        run(operator_calls::<'a, T>(plan, replies), replies, states),
        operator_gives(plan, replies, output),
        states[0].arrays.contains_key(a),
    ensures
        output matches Ok(array) ==> states.last().arrays[array.raw()].shape
            == states[0].arrays[a].shape,
{
    operators_yield_what_operations_yield::<T>(plan, replies, output, states);
    a_scalar_joins_any_shape(states[0].arrays[a].shape);
}

} // verus!
