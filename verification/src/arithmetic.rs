//! What the operations compute.
//!
//! Which function an operation computes is up to MLX. That it is the function of the operation that
//! was asked for, applied to the operands that were given and in their order, is stated here, for
//! whatever those functions are.

use vstd::prelude::*;

use crate::array::Array;
use crate::call::{ffi_list, BinaryOp, Call, Op, RawArray, ReduceOp, Reply, UnaryOp};
use crate::dtype::Dtype;
use crate::extent::{a_scalar_joins_any_shape, are_axes};
use crate::layout::{in_bounds, rank, rank_inverts_unrank, unrank, unrank_inverts_rank};
use crate::memory::{
    all_axes, lemma_steps, listed, operators_yield_what_operations_yield, run, shrunk, steps,
    stretched, Memory,
};
use crate::operator::{operator_calls, Arith, OperatorError, OperatorPlan, OperatorTask};
use crate::shape::{product, valid_shape};
use crate::task::Task;
use crate::typed::{complete, operators_carry_no_elements, typed, typed_calls, typed_plan};
use crate::values::{lemma_operation, Operation};

verus! {

/// Each element of the result of an elementwise operation on one array is what the operation makes
/// of the element that stands in its place.
pub proof fn an_operation_applies_its_function<'a, T: Copy>(
    o: Operation<'a, T>,
    op: UnaryOp,
    a: RawArray,
)
    requires
        o.happens(),
        op != UnaryOp::Transpose,
        op != UnaryOp::Squeeze,
        o.plan.op == (Op::Unary { op, a }),
        o.before().arrays.contains_key(a),
        o.before().arrays[a].dtype == o.before().setting.element,
        o.output is Ok,
    ensures
        o.after().arrays[o.result()].elements == o.before().arrays[a].elements.map_values(
            |x: T| (o.before().setting.functions.unary)(op, x),
        ),
{
    lemma_operation(o);
    let (from, to) = (o.before().arrays[a], o.after().arrays[o.result()]);
    assert(from.valid(o.before().setting.element));
    assert(to.elements =~= from.elements.map_values(
        |x: T| (o.before().setting.functions.unary)(op, x),
    ));
}

/// The elements of an array that is stretched over its own shape are those of the array.
proof fn lemma_stretched_over_itself<T>(shape: Seq<i32>, elements: Seq<T>, r: int)
    requires
        valid_shape(shape),
        elements.len() == product(shape),
        0 <= r < elements.len(),
    ensures
        stretched(shape, shape, elements)[r] == elements[r],
{
    unrank_inverts_rank(shape, r);
    let index = unrank(shape, r);
    assert(shrunk(shape, index) =~= index) by {
        assert forall|i: int| 0 <= i < shape.len() implies #[trigger] shrunk(shape, index)[i]
            == index[i] by {
            assert(0 <= index[i] < shape[i]);
        }
    }
}

/// The elements of an array without axes that is stretched over a shape are all its only element.
proof fn lemma_stretched_scalar<T>(shape: Seq<i32>, elements: Seq<T>, r: int)
    requires
        0 <= r < product(shape),
    ensures
        stretched(Seq::empty(), shape, elements)[r] == elements[0],
{
}

/// Each element of the result of an elementwise operation on two arrays is what the operation makes
/// of the element of the left operand and that of the right one, in this order, that are stretched
/// to its place.
pub proof fn an_operation_applies_its_function_to_two<'a, T: Copy>(
    o: Operation<'a, T>,
    op: BinaryOp,
    a: RawArray,
    b: RawArray,
    index: Seq<int>,
)
    requires
        o.happens(),
        op != BinaryOp::Matmul,
        o.plan.op == (Op::Binary { op, a, b }),
        o.before().arrays.contains_key(a),
        o.before().arrays.contains_key(b),
        o.before().arrays[a].dtype == o.before().setting.element,
        o.before().arrays[b].dtype == o.before().setting.element,
        o.output is Ok,
        in_bounds(o.after().arrays[o.result()].shape, index),
    ensures
        ({
            let (x, y) = (o.before().arrays[a], o.before().arrays[b]);
            let to = o.after().arrays[o.result()];
            to.elements[rank(to.shape, index)] == (o.before().setting.functions.binary)(
                op,
                x.elements[rank(x.shape, shrunk(x.shape, index))],
                y.elements[rank(y.shape, shrunk(y.shape, index))],
            )
        }),
{
    lemma_operation(o);
    let to = o.after().arrays[o.result()];
    rank_inverts_unrank(to.shape, index);
    assert(to.valid(o.before().setting.element));
}

/// On two arrays of the same shape the elements that stand in the same place go together.
pub proof fn equal_shapes_go_element_by_element<'a, T: Copy>(
    o: Operation<'a, T>,
    op: BinaryOp,
    a: RawArray,
    b: RawArray,
    i: int,
)
    requires
        o.happens(),
        op != BinaryOp::Matmul,
        o.plan.op == (Op::Binary { op, a, b }),
        o.before().arrays.contains_key(a),
        o.before().arrays.contains_key(b),
        o.before().arrays[a].dtype == o.before().setting.element,
        o.before().arrays[b].dtype == o.before().setting.element,
        o.before().arrays[a].shape == o.before().arrays[b].shape,
        o.output is Ok,
        0 <= i < o.before().arrays[a].elements.len(),
    ensures
        o.after().arrays[o.result()].elements.len() == o.before().arrays[a].elements.len(),
        o.after().arrays[o.result()].elements[i] == (o.before().setting.functions.binary)(
            op,
            o.before().arrays[a].elements[i],
            o.before().arrays[b].elements[i],
        ),
{
    lemma_operation(o);
    let (x, y) = (o.before().arrays[a], o.before().arrays[b]);
    let to = o.after().arrays[o.result()];
    assert(x.valid(o.before().setting.element) && y.valid(o.before().setting.element));
    a_scalar_joins_any_shape(x.shape);
    lemma_stretched_over_itself(x.shape, x.elements, i);
    lemma_stretched_over_itself(y.shape, y.elements, i);
}

/// A reduction over all axes gives what its function makes of the array, and so does one over
/// given axes: the function of the reduction that was asked for, over the axes that were given,
/// whether they stay or not.
pub proof fn a_reduction_applies_its_function<'a, T: Copy>(
    o: Operation<'a, T>,
    op: ReduceOp,
    a: RawArray,
    axes: &'a [i32],
    keepdims: bool,
)
    requires
        o.happens(),
        o.before().arrays.contains_key(a),
        o.before().arrays[a].dtype == o.before().setting.element,
        are_axes(axes@, o.before().arrays[a].shape.len()),
        o.output is Ok,
    ensures
        ({
            let (from, to) = (o.before().arrays[a], o.after().arrays[o.result()]);
            let function = o.before().setting.functions.reduction;
            &&& o.plan.op == (Op::Reduce { op, a, keepdims }) ==> to.elements == function(
                op,
                from.shape,
                from.elements,
                all_axes(from.shape),
            )
            &&& o.plan.op == (Op::ReduceAxes { op, a, axes: ffi_list(axes), keepdims })
                ==> to.elements == function(op, from.shape, from.elements, axes@)
        }),
{
    lemma_operation(o);
    assert(listed(ffi_list(axes)) =~= axes@);
}

/// Whether the reduced axes stay with length one changes the shape only: the elements are the same.
pub proof fn keeping_the_axes_changes_no_element<'a, T: Copy>(
    kept: Operation<'a, T>,
    removed: Operation<'a, T>,
    op: ReduceOp,
    a: RawArray,
    axes: &'a [i32],
)
    requires
        kept.happens(),
        removed.happens(),
        kept.before().arrays.contains_key(a),
        removed.before().arrays.contains_key(a),
        removed.before().setting == kept.before().setting,
        removed.before().arrays[a].same(kept.before().arrays[a]),
        kept.before().arrays[a].dtype == kept.before().setting.element,
        are_axes(axes@, kept.before().arrays[a].shape.len()),
        kept.output is Ok,
        removed.output is Ok,
        ({
            ||| {
                &&& kept.plan.op == (Op::Reduce { op, a, keepdims: true })
                &&& removed.plan.op == (Op::Reduce { op, a, keepdims: false })
            }
            ||| {
                &&& kept.plan.op == (Op::ReduceAxes {
                    op,
                    a,
                    axes: ffi_list(axes),
                    keepdims: true,
                })
                &&& removed.plan.op == (Op::ReduceAxes {
                    op,
                    a,
                    axes: ffi_list(axes),
                    keepdims: false,
                })
            }
        }),
    ensures
        kept.after().arrays[kept.result()].elements
            == removed.after().arrays[removed.result()].elements,
{
    a_reduction_applies_its_function(kept, op, a, axes, true);
    a_reduction_applies_its_function(removed, op, a, axes, false);
}

/// A reduction over all axes and one that names them all in order give the same elements.
pub proof fn naming_all_axes_reduces_the_whole_array<'a, T: Copy>(
    whole: Operation<'a, T>,
    named: Operation<'a, T>,
    op: ReduceOp,
    a: RawArray,
    axes: &'a [i32],
    keepdims: bool,
)
    requires
        whole.happens(),
        named.happens(),
        whole.before().arrays.contains_key(a),
        named.before().arrays.contains_key(a),
        named.before().setting == whole.before().setting,
        named.before().arrays[a].same(whole.before().arrays[a]),
        whole.before().arrays[a].dtype == whole.before().setting.element,
        whole.before().arrays[a].shape.len() <= i32::MAX,
        axes@ == all_axes(whole.before().arrays[a].shape),
        whole.plan.op == (Op::Reduce { op, a, keepdims }),
        named.plan.op == (Op::ReduceAxes { op, a, axes: ffi_list(axes), keepdims }),
        whole.output is Ok,
        named.output is Ok,
    ensures
        whole.after().arrays[whole.result()].elements
            == named.after().arrays[named.result()].elements,
{
    a_reduction_applies_its_function(whole, op, a, axes, keepdims);
    a_reduction_applies_its_function(named, op, a, axes, keepdims);
}

/// A matrix product is the product of its left operand and its right one, in this order.
pub proof fn a_matrix_product_multiplies_its_operands<'a, T: Copy>(
    o: Operation<'a, T>,
    a: RawArray,
    b: RawArray,
)
    requires
        o.happens(),
        o.plan.op == (Op::Binary { op: BinaryOp::Matmul, a, b }),
        o.before().arrays.contains_key(a),
        o.before().arrays.contains_key(b),
        o.before().arrays[a].shape.len() > 0,
        o.before().arrays[b].shape.len() > 0,
        o.before().arrays[a].dtype == o.before().setting.element,
        o.before().arrays[b].dtype == o.before().setting.element,
        o.output is Ok,
    ensures
        ({
            let (x, y) = (o.before().arrays[a], o.before().arrays[b]);
            o.after().arrays[o.result()].elements == (o.before().setting.functions.product)(
                x.shape,
                x.elements,
                y.shape,
                y.elements,
            )
        }),
{
    lemma_operation(o);
}

/// Comparing two whole arrays gives the answer on these two arrays, and takes NaN values for equal
/// just as it was asked to.
pub proof fn whole_arrays_are_compared_as_asked<'a, T: Copy>(
    o: Operation<'a, T>,
    a: RawArray,
    b: RawArray,
    equal_nan: bool,
)
    requires
        o.happens(),
        o.plan.op == (Op::ArrayEqual { a, b, equal_nan }),
        o.before().arrays.contains_key(a),
        o.before().arrays.contains_key(b),
        o.before().arrays[a].dtype == o.before().setting.element,
        o.before().arrays[b].dtype == o.before().setting.element,
        o.output is Ok,
    ensures
        ({
            let (x, y) = (o.before().arrays[a], o.before().arrays[b]);
            o.after().arrays[o.result()].elements == seq![
                (o.before().setting.functions.equality)(
                    equal_nan,
                    x.shape,
                    x.elements,
                    y.shape,
                    y.elements,
                ),
            ]
        }),
{
    lemma_operation(o);
}

/// A range has the element type that was asked for, and its elements are the numbers from the start
/// up to the stop by the step that were given.
pub proof fn a_range_holds_its_numbers<'a, T: Copy>(
    o: Operation<'a, T>,
    start: u64,
    stop: u64,
    step: u64,
    dtype: Dtype,
)
    requires
        o.happens(),
        o.plan.op == (Op::Arange { start, stop, step, dtype: dtype.code() }),
        o.output is Ok,
    ensures
        o.after().arrays[o.result()].dtype == dtype.code(),
        o.after().arrays[o.result()].shape.len() == 1,
        dtype.code() == o.before().setting.element ==> o.after().arrays[o.result()].elements == (
        o.before().setting.functions.range)(start, stop, step),
{
    lemma_operation(o);
}

/// A conversion has the element type that was asked for, and converts each element to that type.
pub proof fn a_conversion_converts_each_element<'a, T: Copy>(
    o: Operation<'a, T>,
    a: RawArray,
    dtype: Dtype,
)
    requires
        o.happens(),
        o.plan.op == (Op::Astype { a, dtype: dtype.code() }),
        o.before().arrays.contains_key(a),
        o.output is Ok,
    ensures
        o.after().arrays[o.result()].dtype == dtype.code(),
        o.before().arrays[a].dtype == o.before().setting.element
            ==> o.after().arrays[o.result()].elements
            == o.before().arrays[a].elements.map_values(
            |x: T| (o.before().setting.functions.conversion)(dtype.code(), x),
        ),
{
    lemma_operation(o);
    let (from, to) = (o.before().arrays[a], o.after().arrays[o.result()]);
    if from.dtype == o.before().setting.element {
        assert(from.valid(o.before().setting.element));
        assert(to.elements =~= from.elements.map_values(
            |x: T| (o.before().setting.functions.conversion)(dtype.code(), x),
        ));
    }
}

/// An operator on two arrays of one shape adds, subtracts, multiplies or divides the elements that
/// stand in the same place, as its sign says: the left one goes first.
pub proof fn an_operator_applies_its_function<'a, T: Copy>(
    plan: OperatorPlan<()>,
    op: Arith,
    a: RawArray,
    b: RawArray,
    replies: Seq<Reply<()>>,
    output: Result<Array, OperatorError>,
    states: Seq<Memory<T>>,
    i: int,
)
    requires
        plan == (OperatorPlan::<()>::Arrays { op, lhs: a, rhs: b }) || plan
            == (OperatorPlan::<()>::Assign { op, target: a, rhs: b }),
        complete::<(), OperatorTask<'a, ()>>(plan, replies),
        <OperatorTask<'a, ()> as Task<'a, ()>>::gives(plan, replies, output),
        run(
            typed_calls::<T>(<OperatorTask<'a, ()> as Task<'a, ()>>::calls(plan, replies)),
            typed(replies),
            states,
        ),
        states[0].arrays.contains_key(a),
        states[0].arrays.contains_key(b),
        states[0].arrays[a].dtype == states[0].setting.element,
        states[0].arrays[b].dtype == states[0].setting.element,
        states[0].arrays[a].shape == states[0].arrays[b].shape,
        output is Ok,
        0 <= i < states[0].arrays[a].elements.len(),
    ensures
        ({
            let result = states.last().arrays[output->Ok_0.raw()];
            let (x, y) = (states[0].arrays[a].elements[i], states[0].arrays[b].elements[i]);
            let binary = states[0].setting.functions.binary;
            result.elements[i] == match op {
                Arith::Add => binary(BinaryOp::Add, x, y),
                Arith::Subtract => binary(BinaryOp::Subtract, x, y),
                Arith::Multiply => binary(BinaryOp::Multiply, x, y),
                Arith::Divide => binary(BinaryOp::Divide, x, y),
            }
        }),
{
    operators_carry_no_elements::<T>(plan, replies, output);
    operators_yield_what_operations_yield::<T>(typed_plan(plan), typed(replies), output, states);
    let (x, y) = (states[0].arrays[a], states[0].arrays[b]);
    let result = states.last().arrays[output->Ok_0.raw()];
    assert(x.valid(states[0].setting.element) && y.valid(states[0].setting.element));
    a_scalar_joins_any_shape(x.shape);
    lemma_stretched_over_itself(x.shape, x.elements, i);
    lemma_stretched_over_itself(y.shape, y.elements, i);
}

/// Negation makes of each element what the negating operation makes of it.
pub proof fn negation_applies_its_function<'a, T: Copy>(
    operand: RawArray,
    replies: Seq<Reply<()>>,
    output: Result<Array, OperatorError>,
    states: Seq<Memory<T>>,
    i: int,
)
    requires
        complete::<(), OperatorTask<'a, ()>>(OperatorPlan::Negate { operand }, replies),
        <OperatorTask<'a, ()> as Task<'a, ()>>::gives(
            OperatorPlan::Negate { operand },
            replies,
            output,
        ),
        run(
            typed_calls::<T>(
                <OperatorTask<'a, ()> as Task<'a, ()>>::calls(
                    OperatorPlan::Negate { operand },
                    replies,
                ),
            ),
            typed(replies),
            states,
        ),
        states[0].arrays.contains_key(operand),
        states[0].arrays[operand].dtype == states[0].setting.element,
        output is Ok,
        0 <= i < states[0].arrays[operand].elements.len(),
    ensures
        states.last().arrays[output->Ok_0.raw()].elements[i] == (
        states[0].setting.functions.unary)(
            UnaryOp::Negative,
            states[0].arrays[operand].elements[i],
        ),
{
    let plan = OperatorPlan::<()>::Negate { operand };
    operators_carry_no_elements::<T>(plan, replies, output);
    operators_yield_what_operations_yield::<T>(typed_plan(plan), typed(replies), output, states);
    let result = states.last().arrays[output->Ok_0.raw()];
    assert(states[0].arrays[operand].valid(states[0].setting.element));
}

/// An operator on an array and a plain value applies its function to each element and the value, on
/// the side on which the value stands.
pub proof fn an_operator_applies_its_function_to_a_value<'a, T: Copy>(
    plan: OperatorPlan<T>,
    op: Arith,
    a: RawArray,
    value: T,
    dtype: Dtype,
    replies: Seq<Reply<T>>,
    output: Result<Array, OperatorError>,
    states: Seq<Memory<T>>,
    i: int,
)
    requires
        ({
            ||| plan == (OperatorPlan::ScalarRight { op, lhs: a, value, dtype })
            ||| plan == (OperatorPlan::ScalarLeft { op, value, dtype, rhs: a })
            ||| plan == (OperatorPlan::AssignScalar { op, target: a, value, dtype })
        }),
        <OperatorTask<'a, T> as Task<'a, T>>::gives(plan, replies, output),
        run(<OperatorTask<'a, T> as Task<'a, T>>::calls(plan, replies), replies, states),
        states[0].setting.element == dtype.code(),
        states[0].arrays.contains_key(a),
        states[0].arrays[a].dtype == dtype.code(),
        output is Ok,
        0 <= i < states[0].arrays[a].elements.len(),
    ensures
        ({
            let result = states.last().arrays[output->Ok_0.raw()];
            let element = states[0].arrays[a].elements[i];
            let (x, y) = if plan is ScalarLeft {
                (value, element)
            } else {
                (element, value)
            };
            let binary = states[0].setting.functions.binary;
            result.elements[i] == match op {
                Arith::Add => binary(BinaryOp::Add, x, y),
                Arith::Subtract => binary(BinaryOp::Subtract, x, y),
                Arith::Multiply => binary(BinaryOp::Multiply, x, y),
                Arith::Divide => binary(BinaryOp::Divide, x, y),
            }
        }),
{
    operators_yield_what_operations_yield::<T>(plan, replies, output, states);
    let calls: Seq<Call<T>> = operator_calls(plan, replies);
    lemma_steps(calls, replies, states, 2);
    reveal_with_fuel(steps, 3);
    let from = states[0].arrays[a];
    let result = states.last().arrays[output->Ok_0.raw()];
    let scalar = states[2].arrays[replies[1]->Array_0];
    assert(from.valid(states[0].setting.element));
    assert(scalar.elements == seq![value]);
    a_scalar_joins_any_shape(from.shape);
    lemma_stretched_over_itself(from.shape, from.elements, i);
    lemma_stretched_scalar(from.shape, scalar.elements, i);
}

} // verus!
