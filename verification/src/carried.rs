//! What the calls carry, and what becomes of the replies.
//!
//! Whatever a task was made to do reaches MLX as it is: the operation with all its arguments, the
//! stream, the lists with their lengths, the values and their type. What MLX replies comes out as
//! it is.

use vstd::prelude::*;

use crate::array::Array;
use crate::call::{BinaryOp, Call, Op, RawArray, RawStream, Reply, UnaryOp};
use crate::construct::{BuildPlan, BuildTask};
use crate::copy::{copy_calls, CopyTask, ToVecError};
use crate::default_stream::{default_calls, DefaultPlan, DefaultTask};
use crate::describe::{DescribePlan, DescribeTask};
use crate::dtype::Dtype;
use crate::error::Error;
use crate::full::{FullPlan, FullTask};
use crate::item::{ItemTask, NotScalar};
use crate::op::{OpPlan, OpTask};
use crate::operator::{operator_calls, Arith, OperatorError, OperatorPlan, OperatorTask};
use crate::query::{CountPlan, CountTask, DtypeTask, EvalTask, LayoutTask, ShapeTask, StridesTask};
use crate::read::{read_calls, ReadPlan, ReadTask};
use crate::shape::product;
use crate::stream::{stream_calls, SetDefaultTask, Stream, StreamPlan, StreamTask};
use crate::task::{after, Task};
use crate::to_vec::{contiguous, ToVecTask};

verus! {

/// A list reaches MLX whole: as the very list that was given, or as a null pointer if and only if
/// that is empty.
pub open spec fn whole<T>(given: &[T], handed: Option<&[T]>) -> bool {
    match handed {
        Some(list) => list == given && list@.len() > 0,
        None => given@.len() == 0,
    }
}

/// An operation invokes exactly once, third, the operation that was planned, with the arguments and
/// on the stream that were planned, and hands over the result handle that it got for it.
pub proof fn an_operation_carries_its_plan<'a, T: Copy>(plan: OpPlan<'a>, replies: Seq<Reply<T>>)
    ensures
        ({
            let calls = <OpTask<'a, T> as Task<'a, T>>::calls(plan, replies);
            &&& calls.len() >= 3
            &&& calls[0] is Install
            &&& calls[1] is NewArray
            &&& calls[2] == (Call::Invoke::<T> {
                out: replies[1]->Array_0,
                op: plan.op,
                stream: plan.stream,
            })
            &&& forall|i: int| 0 <= i < calls.len() && i != 2 ==> !(#[trigger] calls[i] is Invoke)
        }),
{
}

/// An operation succeeds if and only if its status is zero. Its result is then the handle that came
/// with the status, which stays. Otherwise the error carries the message that came with the status,
/// and the handle is freed.
pub proof fn an_operation_goes_by_its_status<'a, T: Copy>(
    plan: OpPlan<'a>,
    replies: Seq<Reply<T>>,
    status: i32,
    out: RawArray,
    message: String,
    output: Result<Array, Error>,
)
    requires
        replies.len() >= 3,
        replies[2] == (Reply::<T>::Status { status, out, message }),
        <OpTask<'a, T> as Task<'a, T>>::gives(plan, replies, output),
    ensures
        match output {
            Ok(array) => status == 0 && array.raw() == out,
            Err(error) => status != 0 && error@ == message@,
        },
        ({
            let calls = <OpTask<'a, T> as Task<'a, T>>::calls(plan, replies);
            if status == 0 {
                calls.len() == 3
            } else {
                calls.len() == 4 && calls[3] == (Call::FreeArray::<T> { array: out })
            }
        }),
{
}

/// A slice that is made into an array reaches MLX whole, with all its dimensions and their number,
/// and the code of its type.
pub proof fn a_slice_is_handed_over_whole<'a, T: Copy>(
    data: &'a [T],
    dtype: Dtype,
    shape: &'a [i32],
    replies: Seq<Reply<T>>,
    array: Array,
)
    requires
        shape@.len() <= i32::MAX,
        <BuildTask<'a, T> as Task<'a, T>>::gives(
            BuildPlan::Slice { data, dtype, shape },
            replies,
            array,
        ),
    ensures
        ({
            let calls = <BuildTask<'a, T> as Task<'a, T>>::calls(
                BuildPlan::Slice { data, dtype, shape },
                replies,
            );
            &&& calls.len() == 2
            &&& calls[0] is Install
            &&& calls[1] matches Call::NewData { data: values, shape: dims, dim, dtype: code }
                && whole(data, values) && whole(shape, dims) && dim == shape@.len() && code
                == dtype.code()
        }),
        array.raw() == replies[1]->Array_0,
{
}

/// A value that is made into an array reaches MLX with the code of its type.
pub proof fn a_value_is_handed_over<'a, T: Copy>(
    value: T,
    dtype: Dtype,
    replies: Seq<Reply<T>>,
    array: Array,
)
    requires
        <BuildTask<'a, T> as Task<'a, T>>::gives(
            BuildPlan::Scalar { value, dtype },
            replies,
            array,
        ),
    ensures
        ({
            let calls = <BuildTask<'a, T> as Task<'a, T>>::calls(
                BuildPlan::Scalar { value, dtype },
                replies,
            );
            &&& calls.len() == 2
            &&& calls[0] is Install
            &&& calls[1] == (Call::NewScalar { value, dtype: dtype.code() })
        }),
        array.raw() == replies[1]->Array_0,
{
}

/// To fill a shape, the value becomes an array of its type, and that array is spread over the whole
/// shape, as the same type and on the stream that was given. The outcome goes by the status of the
/// spreading.
pub proof fn a_fill_carries_its_plan<'a, T: Copy>(
    plan: FullPlan<'a, T>,
    replies: Seq<Reply<T>>,
    output: Result<Array, Error>,
)
    requires
        replies.len() >= 5,
        <FullTask<'a, T> as Task<'a, T>>::gives(plan, replies, output),
    ensures
        ({
            let calls = <FullTask<'a, T> as Task<'a, T>>::calls(plan, replies);
            &&& calls.len() == if replies[4]->status == 0 { 6int } else { 7int }
            &&& calls[0] is Install
            &&& calls[1] == (Call::NewScalar { value: plan.value, dtype: plan.dtype.code() })
            &&& calls[4] matches Call::Invoke {
                out,
                op: Op::Full { shape, vals, dtype },
                stream,
            } && out == replies[3]->Array_0 && whole(plan.shape, shape) && vals
                == replies[1]->Array_0 && dtype == plan.dtype.code() && stream == plan.stream
            &&& calls.last() == (Call::FreeArray::<T> { array: replies[1]->Array_0 })
            &&& replies[4]->status != 0 ==> calls[5] == (Call::FreeArray::<T> {
                array: replies[4]->out,
            })
            &&& forall|i: int| 0 <= i < calls.len() && i != 4 ==> !(#[trigger] calls[i] is Invoke)
        }),
        match output {
            Ok(array) => replies[4]->status == 0 && array.raw() == replies[4]->out,
            Err(error) => replies[4]->status != 0 && error@ == replies[4]->message@,
        },
{
}

/// An operation on the default stream invokes exactly once the operation that was given, on the
/// stream that was looked up, and goes by its status. If it succeeds, the array whose place its
/// result takes is freed; if it fails, the unused result handle is.
pub proof fn a_default_operation_carries_its_plan<'a, T: Copy>(
    plan: DefaultPlan<'a>,
    replies: Seq<Reply<T>>,
    output: Result<Array, Error>,
)
    requires
        replies.len() >= 9,
        <DefaultTask<'a, T> as Task<'a, T>>::gives(plan, replies, output),
    ensures
        ({
            let calls = <DefaultTask<'a, T> as Task<'a, T>>::calls(plan, replies);
            let failed = replies[8]->status != 0;
            &&& calls.len() == if failed || plan.replaced is Some { 11int } else { 10int }
            &&& calls.take(6) == <StreamTask<T> as Task<'a, T>>::calls(
                StreamPlan::Default,
                replies,
            )
            &&& calls[6] is Install
            &&& calls[7] is NewArray
            &&& failed ==> calls[9] == (Call::FreeArray::<T> { array: replies[8]->out })
            &&& !failed ==> (plan.replaced matches Some(array) ==> calls[9] == (Call::FreeArray::<
                T,
            > { array }))
            &&& calls.last() == (Call::FreeStream::<T> { stream: replies[4]->Stream_0 })
            &&& calls[8] == (Call::Invoke::<T> {
                out: replies[7]->Array_0,
                op: plan.op,
                stream: replies[4]->Stream_0,
            })
            &&& forall|i: int| 0 <= i < calls.len() && i != 8 ==> !(#[trigger] calls[i] is Invoke)
        }),
        match output {
            Ok(array) => replies[8]->status == 0 && array.raw() == replies[8]->out,
            Err(error) => replies[8]->status != 0 && error@ == replies[8]->message@,
        },
{
    let calls: Seq<Call<T>> = default_calls(plan, replies);
    let first: Seq<Call<T>> = stream_calls(StreamPlan::Default, replies);
    assert(calls.take(6) =~= first);
}

/// An operator on two arrays invokes exactly once the operation of its sign, on the left operand
/// and the right one in this order and on the stream that was looked up. It goes by the status of
/// that, and its error names the method of its sign. An assigning operator does the same.
pub proof fn an_operator_carries_its_operands<'a, T: Copy>(
    plan: OperatorPlan<T>,
    op: Arith,
    a: RawArray,
    b: RawArray,
    replies: Seq<Reply<T>>,
    output: Result<Array, OperatorError>,
)
    requires
        replies.len() >= 9,
        plan == (OperatorPlan::<T>::Arrays { op, lhs: a, rhs: b }) || plan == (OperatorPlan::<
            T,
        >::Assign { op, target: a, rhs: b }),
        <OperatorTask<'a, T> as Task<'a, T>>::gives(plan, replies, output),
    ensures
        ({
            let calls = <OperatorTask<'a, T> as Task<'a, T>>::calls(plan, replies);
            let replaced = if plan is Assign { Some(a) } else { None };
            &&& calls.len() >= 9
            &&& calls[8] matches Call::Invoke { op: run, .. } && calls == <DefaultTask<
                'a,
                T,
            > as Task<'a, T>>::calls(DefaultPlan { op: run, replaced }, replies)
            &&& calls[8] == (Call::Invoke::<T> {
                out: replies[7]->Array_0,
                op: match op {
                    Arith::Add => Op::Binary { op: BinaryOp::Add, a, b },
                    Arith::Subtract => Op::Binary { op: BinaryOp::Subtract, a, b },
                    Arith::Multiply => Op::Binary { op: BinaryOp::Multiply, a, b },
                    Arith::Divide => Op::Binary { op: BinaryOp::Divide, a, b },
                },
                stream: replies[4]->Stream_0,
            })
            &&& forall|i: int| 0 <= i < calls.len() && i != 8 ==> !(#[trigger] calls[i] is Invoke)
        }),
        match output {
            Ok(array) => replies[8]->status == 0 && array.raw() == replies[8]->out,
            Err(failure) => {
                &&& replies[8]->status != 0
                &&& failure.error@ == replies[8]->message@
                &&& failure.method@ == match op {
                    Arith::Add => "add"@,
                    Arith::Subtract => "subtract"@,
                    Arith::Multiply => "multiply"@,
                    Arith::Divide => "divide"@,
                }
            },
        },
{
    assert(after(replies, 6)[2] == replies[8]);
}

/// Negation invokes exactly once the negating operation on its operand, on the stream that was
/// looked up. It goes by the status of that, and its error names the method.
pub proof fn negation_carries_its_operand<'a, T: Copy>(
    operand: RawArray,
    replies: Seq<Reply<T>>,
    output: Result<Array, OperatorError>,
)
    requires
        replies.len() >= 9,
        <OperatorTask<'a, T> as Task<'a, T>>::gives(
            OperatorPlan::Negate { operand },
            replies,
            output,
        ),
    ensures
        ({
            let calls = <OperatorTask<'a, T> as Task<'a, T>>::calls(
                OperatorPlan::Negate { operand },
                replies,
            );
            let run = Op::Unary { op: UnaryOp::Negative, a: operand };
            &&& calls == <DefaultTask<'a, T> as Task<'a, T>>::calls(
                DefaultPlan { op: run, replaced: None },
                replies,
            )
            &&& calls.len() >= 9
            &&& calls[8] == (Call::Invoke::<T> {
                out: replies[7]->Array_0,
                op: Op::Unary { op: UnaryOp::Negative, a: operand },
                stream: replies[4]->Stream_0,
            })
            &&& forall|i: int| 0 <= i < calls.len() && i != 8 ==> !(#[trigger] calls[i] is Invoke)
        }),
        match output {
            Ok(array) => replies[8]->status == 0 && array.raw() == replies[8]->out,
            Err(failure) => {
                &&& replies[8]->status != 0
                &&& failure.error@ == replies[8]->message@
                &&& failure.method@ == "negative"@
            },
        },
{
    assert(after(replies, 6)[2] == replies[8]);
}

/// An operator on an array and a plain value makes the value into an array of its type, and invokes
/// exactly once the operation of its sign on the two, each on its side of the sign and on the
/// stream that was looked up. It goes by the status of that, and its error names the method of its
/// sign.
pub proof fn an_operator_carries_its_value<'a, T: Copy>(
    plan: OperatorPlan<T>,
    op: Arith,
    array: RawArray,
    value: T,
    dtype: Dtype,
    replies: Seq<Reply<T>>,
    output: Result<Array, OperatorError>,
)
    requires
        replies.len() >= 11,
        ({
            ||| plan == (OperatorPlan::ScalarRight { op, lhs: array, value, dtype })
            ||| plan == (OperatorPlan::ScalarLeft { op, value, dtype, rhs: array })
            ||| plan == (OperatorPlan::AssignScalar { op, target: array, value, dtype })
        }),
        <OperatorTask<'a, T> as Task<'a, T>>::gives(plan, replies, output),
    ensures
        ({
            let calls = <OperatorTask<'a, T> as Task<'a, T>>::calls(plan, replies);
            let built = replies[1]->Array_0;
            let (a, b) = if plan is ScalarLeft {
                (built, array)
            } else {
                (array, built)
            };
            let replaced = if plan is AssignScalar { Some(array) } else { None };
            &&& calls.len() >= 11
            &&& calls[0] is Install
            &&& calls[1] == (Call::NewScalar { value, dtype: dtype.code() })
            &&& calls[10] matches Call::Invoke { op: run, .. } && calls.subrange(
                2,
                calls.len() - 1,
            ) == <DefaultTask<'a, T> as Task<'a, T>>::calls(
                DefaultPlan { op: run, replaced },
                after(replies, 2),
            )
            &&& calls.last() == (Call::FreeArray::<T> { array: built })
            &&& calls[10] == (Call::Invoke::<T> {
                out: replies[9]->Array_0,
                op: match op {
                    Arith::Add => Op::Binary { op: BinaryOp::Add, a, b },
                    Arith::Subtract => Op::Binary { op: BinaryOp::Subtract, a, b },
                    Arith::Multiply => Op::Binary { op: BinaryOp::Multiply, a, b },
                    Arith::Divide => Op::Binary { op: BinaryOp::Divide, a, b },
                },
                stream: replies[6]->Stream_0,
            })
            &&& forall|i: int|
                0 <= i < calls.len() && i != 10 ==> !(#[trigger] calls[i] is Invoke)
        }),
        match output {
            Ok(result) => replies[10]->status == 0 && result.raw() == replies[10]->out,
            Err(failure) => {
                &&& replies[10]->status != 0
                &&& failure.error@ == replies[10]->message@
                &&& failure.method@ == match op {
                    Arith::Add => "add"@,
                    Arith::Subtract => "subtract"@,
                    Arith::Multiply => "multiply"@,
                    Arith::Divide => "divide"@,
                }
            },
        },
{
    assert(after(replies, 8)[2] == replies[10]);
    let later = after(replies, 2);
    assert(later[4] == replies[6] && later[7] == replies[9] && later[8] == replies[10]);
    assert(after(later, 6)[1] == replies[9]);
    assert(after(later, 6)[2] == replies[10]);
    let calls: Seq<Call<T>> = operator_calls(plan, replies);
    let running: Seq<Call<T>> = default_calls(plan.run(replies[1]->Array_0), later);
    assert(calls.subrange(2, calls.len() - 1) =~= running);
}

/// Asking for the number of elements, or of dimensions, of an array asks for just that and gives
/// the number that comes.
pub proof fn a_count_is_the_number_that_came<'a, T: Copy>(
    array: RawArray,
    replies: Seq<Reply<T>>,
    output: usize,
)
    ensures
        ({
            let plan = CountPlan::Size { array };
            let calls = <CountTask<'a, T> as Task<'a, T>>::calls(plan, replies);
            &&& calls == seq![Call::Size::<T> { array }]
            &&& <CountTask<'a, T> as Task<'a, T>>::gives(plan, replies, output) ==> output
                == replies[0]->Count_0
        }),
        ({
            let plan = CountPlan::Ndim { array };
            let calls = <CountTask<'a, T> as Task<'a, T>>::calls(plan, replies);
            &&& calls == seq![Call::Ndim::<T> { array }]
            &&& <CountTask<'a, T> as Task<'a, T>>::gives(plan, replies, output) ==> output
                == replies[0]->Count_0
        }),
{
}

/// The element type of an array is the one whose code comes.
pub proof fn an_element_type_is_the_one_that_came<'a, T: Copy>(
    array: RawArray,
    replies: Seq<Reply<T>>,
    output: Dtype,
)
    requires
        <DtypeTask<'a, T> as Task<'a, T>>::gives(array, replies, output),
    ensures
        <DtypeTask<'a, T> as Task<'a, T>>::calls(array, replies) == seq![
            Call::Dtype::<T> { array },
        ],
        replies[0]->Code_0 == output.code(),
{
}

/// The dimensions of an array are those that come, of which as many are read as it has.
pub proof fn dimensions_are_those_that_came<'a, T: Copy>(
    array: RawArray,
    replies: Seq<Reply<T>>,
    output: Vec<i32>,
)
    requires
        <ShapeTask<'a, T> as Task<'a, T>>::gives(array, replies, output),
    ensures
        <ShapeTask<'a, T> as Task<'a, T>>::calls(array, replies) == seq![
            Call::Ndim::<T> { array },
            Call::Shape::<T> { array, ndim: replies[0]->Count_0 },
        ],
        output@ == replies[1]->Dims_0@,
{
}

/// The strides of an array are those that come, of which as many are read as it has dimensions.
pub proof fn strides_are_those_that_came<'a, T: Copy>(
    array: RawArray,
    replies: Seq<Reply<T>>,
    output: Vec<usize>,
)
    requires
        <StridesTask<'a, T> as Task<'a, T>>::gives(array, replies, output),
    ensures
        <StridesTask<'a, T> as Task<'a, T>>::calls(array, replies) == seq![
            Call::Ndim::<T> { array },
            Call::Strides::<T> { array, ndim: replies[0]->Count_0 },
        ],
        output@ == replies[1]->Strides_0@,
{
}

/// An array is laid out row-major contiguously if and only if the stride of each axis that has not
/// length one is the number of elements that the axes behind it span.
pub proof fn a_layout_goes_by_dimensions_and_strides<'a, T: Copy>(
    array: RawArray,
    replies: Seq<Reply<T>>,
    output: bool,
)
    requires
        <LayoutTask<'a, T> as Task<'a, T>>::gives(array, replies, output),
    ensures
        <LayoutTask<'a, T> as Task<'a, T>>::calls(array, replies) == seq![
            Call::Ndim::<T> { array },
            Call::Shape::<T> { array, ndim: replies[0]->Count_0 },
            Call::Strides::<T> { array, ndim: replies[0]->Count_0 },
        ],
        output <==> {
            let shape = replies[1]->Dims_0@;
            let strides = replies[2]->Strides_0@;
            forall|i: int|
                #![trigger strides[i]]
                0 <= i < shape.len() && shape[i] != 1 ==> strides[i] == product(shape.skip(i + 1))
        },
{
}

/// An evaluation is asked of the array itself.
pub proof fn an_evaluation_is_asked_of_the_array<'a, T: Copy>(
    array: RawArray,
    replies: Seq<Reply<T>>,
)
    ensures
        <EvalTask<'a, T> as Task<'a, T>>::calls(array, replies) == seq![
            Call::Install::<T>,
            Call::Eval::<T> { array },
        ],
{
}

/// The value of an array is asked for if and only if it has one element, after it was evaluated,
/// and is the value that comes. Otherwise the error holds the number of elements that came.
pub proof fn an_item_is_the_value_that_came<'a, T: Copy>(
    array: RawArray,
    replies: Seq<Reply<T>>,
    output: Result<T, NotScalar>,
)
    requires
        <ItemTask<'a, T> as Task<'a, T>>::gives(array, replies, output),
    ensures
        ({
            let calls = <ItemTask<'a, T> as Task<'a, T>>::calls(array, replies);
            &&& calls.len() == if replies[2]->Count_0 == 1 { 4int } else { 3int }
            &&& calls[0] is Install
            &&& calls[1] == (Call::Eval::<T> { array })
            &&& calls[2] == (Call::Size::<T> { array })
            &&& replies[2]->Count_0 == 1 ==> calls[3] == (Call::Item::<T> { array })
        }),
        match output {
            Ok(value) => replies[2]->Count_0 == 1 && value == replies[3]->Item_0,
            Err(error) => replies[2]->Count_0 != 1 && error.size == replies[2]->Count_0,
        },
{
}

/// A storage buffer is read if and only if the element type is the wanted one and there is an
/// element, and then as many elements are read as there are, and come out as they are. An array
/// without elements gives none, and one of another type gives that type.
pub proof fn a_buffer_is_read_whole<'a, T: Copy>(
    plan: ReadPlan,
    replies: Seq<Reply<T>>,
    output: Result<Vec<T>, Dtype>,
)
    requires
        <ReadTask<'a, T> as Task<'a, T>>::gives(plan, replies, output),
    ensures
        ({
            let calls = <ReadTask<'a, T> as Task<'a, T>>::calls(plan, replies);
            let array = plan.array;
            let len = replies[1]->Count_0;
            &&& calls.len() >= 1
            &&& calls[0] == (Call::Dtype::<T> { array })
            &&& match output {
                Err(found) => {
                    &&& replies[0]->Code_0 != plan.dtype.code()
                    &&& replies[0]->Code_0 == found.code()
                    &&& calls.len() == 1
                },
                Ok(elements) => {
                    &&& replies[0]->Code_0 == plan.dtype.code()
                    &&& calls.len() == if len == 0 { 2int } else { 3int }
                    &&& calls[1] == (Call::Size::<T> { array })
                    &&& len == 0 ==> elements@.len() == 0
                    &&& len > 0 ==> calls[2] == (Call::Copy::<T> { array, len }) && elements@
                        == replies[2]->Elements_0@
                },
            }
        }),
{
}

/// A copy is made of the array itself, in row-major order, and on the stream that came for it. If
/// that fails, the error carries the message that came. Otherwise the copy itself is evaluated and
/// read as the wanted type, as any storage buffer is.
pub proof fn a_copy_stands_for_the_array<'a, T: Copy + 'a>(
    plan: ReadPlan,
    replies: Seq<Reply<T>>,
    output: Result<Vec<T>, ToVecError>,
)
    requires
        replies.len() >= 5,
        <CopyTask<'a, T> as Task<'a, T>>::gives(plan, replies, output),
    ensures
        ({
            let calls = <CopyTask<'a, T> as Task<'a, T>>::calls(plan, replies);
            let copy = ReadPlan { array: replies[4]->out, dtype: plan.dtype };
            let later = after(replies, 8);
            let reading = <ReadTask<'a, T> as Task<'a, T>>::calls(copy, later);
            &&& calls.len() >= 7
            &&& calls[0] is Install
            &&& calls[1] is NewCpuStream
            &&& calls[2] is Install
            &&& calls[3] is NewArray
            &&& calls[4] == (Call::Invoke::<T> {
                out: replies[3]->Array_0,
                op: Op::Contiguous { a: plan.array, allow_col_major: false },
                stream: replies[1]->Stream_0,
            })
            &&& forall|i: int| 0 <= i < calls.len() && i != 4 ==> !(#[trigger] calls[i] is Invoke)
            &&& replies[4]->status == 0 ==> {
                &&& calls.len() == 9 + reading.len()
                &&& calls[5] == (Call::FreeStream::<T> { stream: replies[1]->Stream_0 })
                &&& calls[6] is Install
                &&& calls.last() == (Call::FreeArray::<T> { array: replies[4]->out })
                &&& calls[7] == (Call::Eval::<T> { array: replies[4]->out })
                &&& calls.subrange(8, calls.len() - 1) == reading
                &&& match output {
                    Ok(elements) => <ReadTask<'a, T> as Task<'a, T>>::gives(
                        copy,
                        later,
                        Ok(elements),
                    ),
                    Err(ToVecError::Dtype { found }) => <ReadTask<'a, T> as Task<'a, T>>::gives(
                        copy,
                        later,
                        Err(found),
                    ),
                    Err(ToVecError::Contiguous { .. }) => false,
                }
            }
            &&& replies[4]->status != 0 ==> {
                &&& calls.len() == 7
                &&& calls[5] == (Call::FreeArray::<T> { array: replies[4]->out })
                &&& calls[6] == (Call::FreeStream::<T> { stream: replies[1]->Stream_0 })
                &&& output matches Err(ToVecError::Contiguous { error }) && error@
                    == replies[4]->message@
            }
        }),
{
    let calls = <CopyTask<'a, T> as Task<'a, T>>::calls(plan, replies);
    let copy = ReadPlan { array: replies[4]->out, dtype: plan.dtype };
    let reading: Seq<Call<T>> = read_calls(copy, after(replies, 8));
    if replies[4]->status == 0 {
        assert(calls.subrange(8, calls.len() - 1) =~= reading);
    }
}

/// The elements of an array are read from its storage buffer, with no operation invoked, if the
/// stride of each axis that has not length one is the number of elements that the axes behind it
/// span. Otherwise they are read through a copy. Either way the array is evaluated before it is
/// asked for its layout.
pub proof fn a_read_goes_by_the_layout<'a, T: Copy + 'a>(
    plan: ReadPlan,
    replies: Seq<Reply<T>>,
    output: Result<Vec<T>, ToVecError>,
)
    requires
        replies.len() >= 5,
        <ToVecTask<'a, T> as Task<'a, T>>::gives(plan, replies, output),
    ensures
        ({
            let calls = <ToVecTask<'a, T> as Task<'a, T>>::calls(plan, replies);
            let shape = replies[3]->Dims_0@;
            let strides = replies[4]->Strides_0@;
            let array = plan.array;
            let later = after(replies, 5);
            &&& calls.len() >= 6
            &&& calls.take(5) == seq![
                Call::Install::<T>,
                Call::Eval::<T> { array },
                Call::Ndim::<T> { array },
                Call::Shape::<T> { array, ndim: replies[2]->Count_0 },
                Call::Strides::<T> { array, ndim: replies[2]->Count_0 },
            ]
            &&& if forall|i: int|
                #![trigger strides[i]]
                0 <= i < shape.len() && shape[i] != 1 ==> strides[i] == product(
                    shape.skip(i + 1),
                ) {
                &&& forall|i: int| 0 <= i < calls.len() ==> !(#[trigger] calls[i] is Invoke)
                &&& calls.skip(5) == <ReadTask<'a, T> as Task<'a, T>>::calls(plan, later)
                &&& match output {
                    Ok(elements) => <ReadTask<'a, T> as Task<'a, T>>::gives(
                        plan,
                        later,
                        Ok(elements),
                    ),
                    Err(ToVecError::Dtype { found }) => <ReadTask<'a, T> as Task<'a, T>>::gives(
                        plan,
                        later,
                        Err(found),
                    ),
                    Err(ToVecError::Contiguous { .. }) => false,
                }
            } else {
                &&& calls.skip(5) == <CopyTask<'a, T> as Task<'a, T>>::calls(plan, later)
                &&& <CopyTask<'a, T> as Task<'a, T>>::gives(plan, later, output)
            }
        }),
{
    let calls = <ToVecTask<'a, T> as Task<'a, T>>::calls(plan, replies);
    let later = after(replies, 5);
    let array = plan.array;
    assert(after(replies, 2)[0] == replies[2]);
    let first: Seq<Call<T>> = seq![
        Call::Install,
        Call::Eval { array },
        Call::Ndim { array },
        Call::Shape { array, ndim: replies[2]->Count_0 },
        Call::Strides { array, ndim: replies[2]->Count_0 },
    ];
    assert(calls.take(5) =~= first);
    if contiguous(replies) {
        let reading: Seq<Call<T>> = read_calls(plan, later);
        assert(calls.skip(5) =~= reading);
    } else {
        let copying: Seq<Call<T>> = copy_calls(plan, later);
        assert(calls.skip(5) =~= copying);
    }
}

/// The stream that a task gives is the one that came for what was asked for: the default one of the
/// GPU or the CPU, or that of the default device.
pub proof fn a_stream_is_the_one_that_came<'a, T: Copy>(
    plan: StreamPlan,
    replies: Seq<Reply<T>>,
    output: Stream,
)
    requires
        <StreamTask<T> as Task<'a, T>>::gives(plan, replies, output),
    ensures
        ({
            let calls = <StreamTask<T> as Task<'a, T>>::calls(plan, replies);
            match plan {
                StreamPlan::Gpu => calls == seq![Call::Install::<T>, Call::NewGpuStream::<T>]
                    && output.raw() == replies[1]->Stream_0,
                StreamPlan::Cpu => calls == seq![Call::Install::<T>, Call::NewCpuStream::<T>]
                    && output.raw() == replies[1]->Stream_0,
                StreamPlan::Default => calls == seq![
                    Call::Install::<T>,
                    Call::NewDevice::<T>,
                    Call::DefaultDevice::<T> { device: replies[1]->Device_0 },
                    Call::NewStream::<T>,
                    Call::DefaultStream::<T> {
                        stream: replies[3]->Stream_0,
                        device: replies[2]->Device_0,
                    },
                    Call::FreeDevice::<T> { device: replies[2]->Device_0 },
                ] && output.raw() == replies[4]->Stream_0,
            }
        }),
{
}

/// Making a stream the default sets the default device to the device of that very stream, and then
/// the default stream to it.
pub proof fn a_default_is_set_to_the_stream<'a, T: Copy>(
    stream: RawStream,
    replies: Seq<Reply<T>>,
)
    ensures
        <SetDefaultTask<'a, T> as Task<'a, T>>::calls(stream, replies) == seq![
            Call::Install::<T>,
            Call::NewDevice::<T>,
            Call::StreamDevice::<T> { device: replies[1]->Device_0, stream },
            Call::SetDefaultDevice::<T> { device: replies[2]->Device_0 },
            Call::FreeDevice::<T> { device: replies[2]->Device_0 },
            Call::SetDefaultStream::<T> { stream },
        ],
{
}

/// A text is written into a string that was made for it, read from there, and the string is freed.
/// The text of an array is that of the array itself.
pub proof fn a_text_is_read_where_it_was_written<'a, T: Copy>(
    plan: DescribePlan,
    replies: Seq<Reply<T>>,
    output: String,
)
    requires
        <DescribeTask<'a, T> as Task<'a, T>>::gives(plan, replies, output),
    ensures
        ({
            let calls = <DescribeTask<'a, T> as Task<'a, T>>::calls(plan, replies);
            match plan {
                DescribePlan::Array { array } => calls == seq![
                    Call::Install::<T>,
                    Call::NewString::<T>,
                    Call::ArrayText::<T> { string: replies[1]->String_0, array },
                    Call::StringData::<T> { string: replies[2]->String_0 },
                    Call::FreeString::<T> { string: replies[2]->String_0 },
                ] && output@ == replies[3]->Text_0@,
                DescribePlan::Version => calls == seq![
                    Call::NewString::<T>,
                    Call::Version::<T> { string: replies[0]->String_0 },
                    Call::StringData::<T> { string: replies[1]->String_0 },
                    Call::FreeString::<T> { string: replies[1]->String_0 },
                ] && output@ == replies[2]->Text_0@,
            }
        }),
{
}

} // verus!
