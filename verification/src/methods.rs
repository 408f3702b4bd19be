//! What each method stands for.
//!
//! Which operation a method asks for, on which operands, with which arguments and on which stream:
//! stated of what the methods themselves return.

use vstd::prelude::*;

use crate::array::Array;
use crate::call::{as_ffi_list, BinaryOp, Call, FillOp, Op, RawArray, ReduceOp, ShapeOp, UnaryOp};
use crate::carried::whole;
use crate::construct::{BuildPlan, BuildTask};
use crate::describe::{DescribePlan, DescribeTask};
use crate::dtype::{codes_are_distinct, Dtype};
use crate::full::{FullPlan, FullTask};
use crate::item::ItemTask;
use crate::layout::is_row_contiguous;
use crate::op::{OpPlan, OpTask};
use crate::operator::{
    array_op, assign_op, assign_scalar_op, neg, rebind, scalar_lhs_op, scalar_rhs_op, Arith,
    OperatorError, OperatorPlan, OperatorTask,
};
use crate::query::{CountPlan, CountTask, DtypeTask, EvalTask, LayoutTask, ShapeTask, StridesTask};
use crate::read::{ReadPlan, ReadTask};
use crate::shape::{product, shape_product, valid_shape, ShapeError};
use crate::stream::{SetDefaultTask, Stream, StreamTask};
use crate::task::Task;
use crate::to_vec::ToVecTask;

verus! {

/// The task has not begun, and is to run this operation on this stream.
pub open spec fn asks<'a>(task: OpTask<'a, ()>, op: Op<'a>, stream: &'a Stream) -> bool {
    &&& task.plan() == (OpPlan { op, stream: stream.raw() })
    &&& task.replies().len() == 0
}

/// Each method on one array asks for the operation of its name, on that array.
pub proof fn methods_on_one_array_ask_for_their_operations<'a>(
    a: &'a Array,
    stream: &'a Stream,
    task: OpTask<'a, ()>,
)
    ensures
        call_ensures(Array::abs, (a, stream), task) ==> asks(
            task,
            Op::Unary { op: UnaryOp::Abs, a: a.raw() },
            stream,
        ),
        call_ensures(Array::cos, (a, stream), task) ==> asks(
            task,
            Op::Unary { op: UnaryOp::Cos, a: a.raw() },
            stream,
        ),
        call_ensures(Array::exp, (a, stream), task) ==> asks(
            task,
            Op::Unary { op: UnaryOp::Exp, a: a.raw() },
            stream,
        ),
        call_ensures(Array::log, (a, stream), task) ==> asks(
            task,
            Op::Unary { op: UnaryOp::Log, a: a.raw() },
            stream,
        ),
        call_ensures(Array::logical_not, (a, stream), task) ==> asks(
            task,
            Op::Unary { op: UnaryOp::LogicalNot, a: a.raw() },
            stream,
        ),
        call_ensures(Array::negative, (a, stream), task) ==> asks(
            task,
            Op::Unary { op: UnaryOp::Negative, a: a.raw() },
            stream,
        ),
        call_ensures(Array::sin, (a, stream), task) ==> asks(
            task,
            Op::Unary { op: UnaryOp::Sin, a: a.raw() },
            stream,
        ),
        call_ensures(Array::sqrt, (a, stream), task) ==> asks(
            task,
            Op::Unary { op: UnaryOp::Sqrt, a: a.raw() },
            stream,
        ),
        call_ensures(Array::square, (a, stream), task) ==> asks(
            task,
            Op::Unary { op: UnaryOp::Square, a: a.raw() },
            stream,
        ),
        call_ensures(Array::squeeze, (a, stream), task) ==> asks(
            task,
            Op::Unary { op: UnaryOp::Squeeze, a: a.raw() },
            stream,
        ),
        call_ensures(Array::tanh, (a, stream), task) ==> asks(
            task,
            Op::Unary { op: UnaryOp::Tanh, a: a.raw() },
            stream,
        ),
        call_ensures(Array::transpose, (a, stream), task) ==> asks(
            task,
            Op::Unary { op: UnaryOp::Transpose, a: a.raw() },
            stream,
        ),
{
}

/// Each method on two arrays asks for the operation of its name, on the array that it is called on
/// and the other one, in this order.
pub proof fn methods_on_two_arrays_ask_for_their_operations<'a>(
    a: &'a Array,
    b: &'a Array,
    stream: &'a Stream,
    task: OpTask<'a, ()>,
)
    ensures
        call_ensures(Array::add, (a, b, stream), task) ==> asks(
            task,
            Op::Binary { op: BinaryOp::Add, a: a.raw(), b: b.raw() },
            stream,
        ),
        call_ensures(Array::divide, (a, b, stream), task) ==> asks(
            task,
            Op::Binary { op: BinaryOp::Divide, a: a.raw(), b: b.raw() },
            stream,
        ),
        call_ensures(Array::equal, (a, b, stream), task) ==> asks(
            task,
            Op::Binary { op: BinaryOp::Equal, a: a.raw(), b: b.raw() },
            stream,
        ),
        call_ensures(Array::greater, (a, b, stream), task) ==> asks(
            task,
            Op::Binary { op: BinaryOp::Greater, a: a.raw(), b: b.raw() },
            stream,
        ),
        call_ensures(Array::greater_equal, (a, b, stream), task) ==> asks(
            task,
            Op::Binary { op: BinaryOp::GreaterEqual, a: a.raw(), b: b.raw() },
            stream,
        ),
        call_ensures(Array::less, (a, b, stream), task) ==> asks(
            task,
            Op::Binary { op: BinaryOp::Less, a: a.raw(), b: b.raw() },
            stream,
        ),
        call_ensures(Array::less_equal, (a, b, stream), task) ==> asks(
            task,
            Op::Binary { op: BinaryOp::LessEqual, a: a.raw(), b: b.raw() },
            stream,
        ),
        call_ensures(Array::logical_and, (a, b, stream), task) ==> asks(
            task,
            Op::Binary { op: BinaryOp::LogicalAnd, a: a.raw(), b: b.raw() },
            stream,
        ),
        call_ensures(Array::logical_or, (a, b, stream), task) ==> asks(
            task,
            Op::Binary { op: BinaryOp::LogicalOr, a: a.raw(), b: b.raw() },
            stream,
        ),
        call_ensures(Array::matmul, (a, b, stream), task) ==> asks(
            task,
            Op::Binary { op: BinaryOp::Matmul, a: a.raw(), b: b.raw() },
            stream,
        ),
        call_ensures(Array::maximum, (a, b, stream), task) ==> asks(
            task,
            Op::Binary { op: BinaryOp::Maximum, a: a.raw(), b: b.raw() },
            stream,
        ),
        call_ensures(Array::minimum, (a, b, stream), task) ==> asks(
            task,
            Op::Binary { op: BinaryOp::Minimum, a: a.raw(), b: b.raw() },
            stream,
        ),
        call_ensures(Array::multiply, (a, b, stream), task) ==> asks(
            task,
            Op::Binary { op: BinaryOp::Multiply, a: a.raw(), b: b.raw() },
            stream,
        ),
        call_ensures(Array::not_equal, (a, b, stream), task) ==> asks(
            task,
            Op::Binary { op: BinaryOp::NotEqual, a: a.raw(), b: b.raw() },
            stream,
        ),
        call_ensures(Array::power, (a, b, stream), task) ==> asks(
            task,
            Op::Binary { op: BinaryOp::Power, a: a.raw(), b: b.raw() },
            stream,
        ),
        call_ensures(Array::subtract, (a, b, stream), task) ==> asks(
            task,
            Op::Binary { op: BinaryOp::Subtract, a: a.raw(), b: b.raw() },
            stream,
        ),
{
}

/// Each reduction of a whole array asks for the reduction of its name, and for the reduced axes to
/// stay if and only if it was told so.
pub proof fn reductions_ask_for_their_operations<'a>(
    a: &'a Array,
    keepdims: bool,
    stream: &'a Stream,
    task: OpTask<'a, ()>,
)
    ensures
        call_ensures(Array::all, (a, keepdims, stream), task) ==> asks(
            task,
            Op::Reduce { op: ReduceOp::All, a: a.raw(), keepdims },
            stream,
        ),
        call_ensures(Array::any, (a, keepdims, stream), task) ==> asks(
            task,
            Op::Reduce { op: ReduceOp::Any, a: a.raw(), keepdims },
            stream,
        ),
        call_ensures(Array::max, (a, keepdims, stream), task) ==> asks(
            task,
            Op::Reduce { op: ReduceOp::Max, a: a.raw(), keepdims },
            stream,
        ),
        call_ensures(Array::mean, (a, keepdims, stream), task) ==> asks(
            task,
            Op::Reduce { op: ReduceOp::Mean, a: a.raw(), keepdims },
            stream,
        ),
        call_ensures(Array::min, (a, keepdims, stream), task) ==> asks(
            task,
            Op::Reduce { op: ReduceOp::Min, a: a.raw(), keepdims },
            stream,
        ),
        call_ensures(Array::prod, (a, keepdims, stream), task) ==> asks(
            task,
            Op::Reduce { op: ReduceOp::Prod, a: a.raw(), keepdims },
            stream,
        ),
        call_ensures(Array::sum, (a, keepdims, stream), task) ==> asks(
            task,
            Op::Reduce { op: ReduceOp::Sum, a: a.raw(), keepdims },
            stream,
        ),
{
}

/// The task has not begun, and is to run this reduction over these axes on this stream.
pub open spec fn asks_to_reduce<'a>(
    task: OpTask<'a, ()>,
    reduction: ReduceOp,
    array: RawArray,
    given: &'a [i32],
    keep: bool,
    stream: &'a Stream,
) -> bool {
    &&& task.plan().op matches Op::ReduceAxes { op, a, axes, keepdims } && op == reduction && a
        == array && whole(given, axes) && keepdims == keep
    &&& task.plan().stream == stream.raw()
    &&& task.replies().len() == 0
}

/// Each reduction over given axes asks for the reduction of its name over all these axes, and for
/// them to stay if and only if it was told so.
pub proof fn reductions_over_axes_ask_for_their_operations<'a>(
    a: &'a Array,
    axes: &'a [i32],
    keepdims: bool,
    stream: &'a Stream,
    task: OpTask<'a, ()>,
)
    ensures
        call_ensures(Array::all_axes, (a, axes, keepdims, stream), task) ==> asks_to_reduce(
            task,
            ReduceOp::All,
            a.raw(),
            axes,
            keepdims,
            stream,
        ),
        call_ensures(Array::any_axes, (a, axes, keepdims, stream), task) ==> asks_to_reduce(
            task,
            ReduceOp::Any,
            a.raw(),
            axes,
            keepdims,
            stream,
        ),
        call_ensures(Array::max_axes, (a, axes, keepdims, stream), task) ==> asks_to_reduce(
            task,
            ReduceOp::Max,
            a.raw(),
            axes,
            keepdims,
            stream,
        ),
        call_ensures(Array::mean_axes, (a, axes, keepdims, stream), task) ==> asks_to_reduce(
            task,
            ReduceOp::Mean,
            a.raw(),
            axes,
            keepdims,
            stream,
        ),
        call_ensures(Array::min_axes, (a, axes, keepdims, stream), task) ==> asks_to_reduce(
            task,
            ReduceOp::Min,
            a.raw(),
            axes,
            keepdims,
            stream,
        ),
        call_ensures(Array::prod_axes, (a, axes, keepdims, stream), task) ==> asks_to_reduce(
            task,
            ReduceOp::Prod,
            a.raw(),
            axes,
            keepdims,
            stream,
        ),
        call_ensures(Array::sum_axes, (a, axes, keepdims, stream), task) ==> asks_to_reduce(
            task,
            ReduceOp::Sum,
            a.raw(),
            axes,
            keepdims,
            stream,
        ),
{
}

/// Filling a shape and giving an array another shape ask for just that, with the whole shape.
pub proof fn shapes_are_asked_for<'a>(
    a: &'a Array,
    shape: &'a [i32],
    dtype: Dtype,
    stream: &'a Stream,
    task: OpTask<'a, ()>,
)
    ensures
        call_ensures(Array::reshape, (a, shape, stream), task) ==> {
            &&& task.plan().op matches Op::Shape { op, a: array, shape: dims } && op
                == ShapeOp::Reshape && array == a.raw() && whole(shape, dims)
            &&& task.plan().stream == stream.raw()
            &&& task.replies().len() == 0
        },
        call_ensures(Array::broadcast_to, (a, shape, stream), task) ==> {
            &&& task.plan().op matches Op::Shape { op, a: array, shape: dims } && op
                == ShapeOp::BroadcastTo && array == a.raw() && whole(shape, dims)
            &&& task.plan().stream == stream.raw()
            &&& task.replies().len() == 0
        },
        call_ensures(Array::zeros, (shape, dtype, stream), task) ==> {
            &&& task.plan().op matches Op::Fill { op, shape: dims, dtype: code } && op
                == FillOp::Zeros && whole(shape, dims) && code == dtype.code()
            &&& task.plan().stream == stream.raw()
            &&& task.replies().len() == 0
        },
        call_ensures(Array::ones, (shape, dtype, stream), task) ==> {
            &&& task.plan().op matches Op::Fill { op, shape: dims, dtype: code } && op
                == FillOp::Ones && whole(shape, dims) && code == dtype.code()
            &&& task.plan().stream == stream.raw()
            &&& task.replies().len() == 0
        },
{
}

/// The other methods that run an operation ask for it with the arguments that they get.
pub proof fn other_methods_ask_for_their_operations<'a>(
    a: &'a Array,
    b: &'a Array,
    flag: bool,
    axis: i32,
    bounds: (u64, u64, u64),
    dtype: Dtype,
    stream: &'a Stream,
    task: OpTask<'a, ()>,
)
    ensures
        call_ensures(Array::array_equal, (a, b, flag, stream), task) ==> asks(
            task,
            Op::ArrayEqual { a: a.raw(), b: b.raw(), equal_nan: flag },
            stream,
        ),
        call_ensures(Array::expand_dims, (a, axis, stream), task) ==> asks(
            task,
            Op::ExpandDims { a: a.raw(), axis },
            stream,
        ),
        call_ensures(Array::arange, (bounds.0, bounds.1, bounds.2, dtype, stream), task) ==> asks(
            task,
            Op::Arange {
                start: bounds.0,
                stop: bounds.1,
                step: bounds.2,
                dtype: dtype.code(),
            },
            stream,
        ),
        call_ensures(Array::astype, (a, dtype, stream), task) ==> asks(
            task,
            Op::Astype { a: a.raw(), dtype: dtype.code() },
            stream,
        ),
        call_ensures(Array::contiguous, (a, stream), task) ==> asks(
            task,
            Op::Contiguous { a: a.raw(), allow_col_major: false },
            stream,
        ),
{
}

/// Values are made into an array of their type and shape if and only if the product of the
/// dimensions is their number, and within the range of `i64`. Otherwise the error holds both
/// numbers, unless the product is beyond that range.
pub proof fn constructors_take_what_fills_the_shape<'a, T: Copy>(
    data: &'a [T],
    dtype: Dtype,
    shape: &'a [i32],
    result: Result<BuildTask<'a, T>, ShapeError>,
)
    requires
        shape@.len() <= i32::MAX,
        call_ensures(Array::from_slice::<T>, (data, dtype, shape), result),
    ensures
        call_requires(Array::from_slice::<T>, (data, dtype, shape)),
        result is Ok <==> product(shape@) == data@.len() && data@.len() <= i64::MAX,
        match result {
            Ok(task) => {
                &&& task.plan() == (BuildPlan::Slice { data, dtype, shape })
                &&& task.replies().len() == 0
            },
            Err(ShapeError::Mismatch { len, product: p }) => {
                len == data@.len() && p == product(shape@)
            },
            Err(ShapeError::Overflow) => !(i64::MIN <= product(shape@) <= i64::MAX),
        },
{
}

/// A value is made into an array of its type, alone or spread over a shape.
pub proof fn values_are_taken_as_they_are<'a, T: Copy>(
    value: T,
    dtype: Dtype,
    shape: &'a [i32],
    stream: &'a Stream,
    single: BuildTask<'a, T>,
    spread: FullTask<'a, T>,
)
    ensures
        call_ensures(Array::from_scalar::<T>, (value, dtype), single) ==> single.plan() == (
        BuildPlan::Scalar { value, dtype }) && single.replies().len() == 0,
        call_ensures(Array::full::<T>, (shape, value, dtype, stream), spread) ==> spread.plan()
            == (FullPlan { shape, value, dtype, stream: stream.raw() }) && spread.replies().len()
            == 0,
{
}

/// Whatever is asked of an array is asked of that very array, and for what the method's name says.
pub proof fn properties_are_asked_of_the_array<'a>(
    a: &'a Array,
    count: CountTask<'a, ()>,
    shape: ShapeTask<'a, ()>,
    dtype: DtypeTask<'a, ()>,
    strides: StridesTask<'a, ()>,
    layout: LayoutTask<'a, ()>,
    eval: EvalTask<'a, ()>,
    text: DescribeTask<'a, ()>,
)
    ensures
        call_ensures(Array::size, (a,), count) ==> count.plan() == (CountPlan::Size {
            array: a.raw(),
        }) && count.replies().len() == 0,
        call_ensures(Array::ndim, (a,), count) ==> count.plan() == (CountPlan::Ndim {
            array: a.raw(),
        }) && count.replies().len() == 0,
        call_ensures(Array::shape, (a,), shape) ==> shape.plan() == a.raw()
            && shape.replies().len() == 0,
        call_ensures(Array::dtype, (a,), dtype) ==> dtype.plan() == a.raw()
            && dtype.replies().len() == 0,
        call_ensures(Array::strides, (a,), strides) ==> strides.plan() == a.raw()
            && strides.replies().len() == 0,
        call_ensures(Array::is_row_contiguous, (a,), layout) ==> layout.plan() == a.raw()
            && layout.replies().len() == 0,
        call_ensures(Array::eval, (a,), eval) ==> eval.plan() == a.raw() && eval.replies().len()
            == 0,
        call_ensures(Array::describe, (a,), text) ==> text.plan() == (DescribePlan::Array {
            array: a.raw(),
        }) && text.replies().len() == 0,
        call_ensures(crate::version, (), text) ==> text.plan() == DescribePlan::Version
            && text.replies().len() == 0,
{
}

/// The elements of an array are read from that very array, as the type that was given.
pub proof fn elements_are_read_from_the_array<'a, T: Copy>(
    a: &'a Array,
    dtype: Dtype,
    item: ItemTask<'a, T>,
    all: ToVecTask<'a, T>,
    buffer: ReadTask<'a, T>,
)
    ensures
        call_ensures(Array::item::<T>, (a,), item) ==> item.plan() == a.raw()
            && item.replies().len() == 0,
        call_ensures(Array::to_vec::<T>, (a, dtype), all) ==> all.plan() == (ReadPlan {
            array: a.raw(),
            dtype,
        }) && all.replies().len() == 0,
        call_ensures(Array::read_buffer::<T>, (a, dtype), buffer) ==> buffer.plan() == (ReadPlan {
            array: a.raw(),
            dtype,
        }) && buffer.replies().len() == 0,
{
}

/// Giving an array or a stream up frees its own handle.
pub proof fn releasing_frees_the_handle<'a>(
    array: Array,
    stream: Stream,
    call: Call<'a, ()>,
)
    ensures
        call_ensures(Array::release, (array,), call) ==> call == (Call::FreeArray::<()> {
            array: array.raw(),
        }),
        call_ensures(Stream::release, (stream,), call) ==> call == (Call::FreeStream::<()> {
            stream: stream.raw(),
        }),
{
}

/// Each stream is asked for by its name, and a stream becomes the default itself.
pub proof fn streams_are_asked_for_by_name<'a>(
    stream: &'a Stream,
    task: StreamTask<()>,
    set: SetDefaultTask<'a, ()>,
)
    ensures
        call_ensures(Stream::gpu, (), task) ==> task.plan() is Gpu && task.replies().len() == 0,
        call_ensures(Stream::cpu, (), task) ==> task.plan() is Cpu && task.replies().len() == 0,
        call_ensures(Stream::default, (), task) ==> task.plan() is Default && task.replies().len()
            == 0,
        call_ensures(Stream::set_as_default, (stream,), set) ==> set.plan() == stream.raw()
            && set.replies().len() == 0,
{
}

/// Operators take their operands as they stand, each on its side of the sign.
pub proof fn operators_take_their_operands<'a, T: Copy>(
    op: Arith,
    a: &'a Array,
    b: &'a Array,
    value: T,
    dtype: Dtype,
    plain: OperatorTask<'a, ()>,
    mixed: OperatorTask<'a, T>,
)
    ensures
        call_ensures(array_op, (op, a, b), plain) ==> plain.plan() == (OperatorPlan::<
            (),
        >::Arrays { op, lhs: a.raw(), rhs: b.raw() }) && plain.replies().len() == 0,
        call_ensures(neg, (a,), plain) ==> plain.plan() == (OperatorPlan::<()>::Negate {
            operand: a.raw(),
        }) && plain.replies().len() == 0,
        call_ensures(scalar_rhs_op::<T>, (op, a, value, dtype), mixed) ==> mixed.plan() == (
        OperatorPlan::ScalarRight { op, lhs: a.raw(), value, dtype }) && mixed.replies().len() == 0,
        call_ensures(scalar_lhs_op::<T>, (op, value, dtype, a), mixed) ==> mixed.plan() == (
        OperatorPlan::ScalarLeft { op, value, dtype, rhs: a.raw() }) && mixed.replies().len() == 0,
{
}

/// Assigning operators take their operands as they stand, and leave the left one in place.
pub proof fn assigning_operators_take_their_operands<'a, T: Copy>(
    op: Arith,
    target: &'a mut Array,
    b: &'a Array,
    value: T,
    dtype: Dtype,
    plain: OperatorTask<'a, ()>,
    mixed: OperatorTask<'a, T>,
)
    ensures
        call_ensures(assign_op, (op, target, b), plain) ==> {
            &&& plain.plan() == (OperatorPlan::<()>::Assign {
                op,
                target: old(target).raw(),
                rhs: b.raw(),
            })
            &&& plain.replies().len() == 0
            &&& final(target).raw() == old(target).raw()
        },
        call_ensures(assign_scalar_op::<T>, (op, target, value, dtype), mixed) ==> {
            &&& mixed.plan() == (OperatorPlan::AssignScalar {
                op,
                target: old(target).raw(),
                value,
                dtype,
            })
            &&& mixed.replies().len() == 0
            &&& final(target).raw() == old(target).raw()
        },
{
}

/// An assignment ends with its result in the place of the left operand, or, if it failed, with the
/// left operand as it was and the failure handed on.
pub proof fn assignments_end_with_the_result(
    target: &mut Array,
    output: Result<Array, OperatorError>,
    result: Result<(), OperatorError>,
)
    requires
        call_ensures(rebind, (target, output), result),
    ensures
        match output {
            Ok(array) => final(target).raw() == array.raw() && result is Ok,
            Err(failure) => {
                &&& final(target).raw() == old(target).raw()
                &&& result matches Err(kept) && kept == failure
            },
        },
{
}

/// A list is prepared for the C interface whole.
pub proof fn lists_are_prepared_whole<'a, T>(list: &'a [T], handed: Option<&'a [T]>)
    requires
        call_ensures(as_ffi_list::<T>, (list,), handed),
    ensures
        whole(list, handed),
{
}

/// The product of the dimensions is given if and only if it is within the range of `i64`.
pub proof fn products_are_given_within_their_range(shape: &[i32], result: Option<i64>)
    requires
        call_ensures(shape_product, (shape,), result),
    ensures
        result is Some <==> i64::MIN <= product(shape@) <= i64::MAX,
        result matches Some(n) ==> n == product(shape@),
{
}

/// A layout is row-major contiguous if and only if the stride of each axis that has not length one
/// is the number of elements that the axes behind it span.
pub proof fn layouts_are_judged_by_their_strides(
    shape: &[i32],
    strides: &[usize],
    contiguous: bool,
)
    requires
        call_ensures(is_row_contiguous, (shape, strides), contiguous),
    ensures
        shape@.len() == strides@.len() && valid_shape(shape@) ==> call_requires(
            is_row_contiguous,
            (shape, strides),
        ),
        ({
            let dims = shape@;
            let steps = strides@;
            contiguous <==> forall|i: int|
                #![trigger steps[i]]
                0 <= i < dims.len() && dims[i] != 1 ==> steps[i] == product(dims.skip(i + 1))
        }),
{
}

/// Every element type has a code that is accepted, and that leads back to it and to no other.
pub proof fn codes_lead_back(dtype: Dtype, code: u32, back: Dtype)
    requires
        call_ensures(Dtype::as_raw, (dtype,), code),
        call_ensures(Dtype::from_raw, (code,), back),
    ensures
        call_requires(Dtype::from_raw, (code,)),
        back == dtype,
{
    codes_are_distinct(dtype, back);
}

} // verus!
