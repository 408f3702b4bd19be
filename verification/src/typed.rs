//! Tasks that carry no elements, seen as tasks over any element type.
//!
//! Most methods of an array carry no elements, so their tasks have `T = ()`. Their calls and
//! replies stand for the same calls and replies over any other type, and the tasks do the same with
//! them.

use vstd::prelude::*;

use crate::array::Array;
use crate::call::{Call, RawArray, Reply};
use crate::error::Error;
use crate::op::{op_calls, op_gives, OpPlan, OpTask};
use crate::operator::{
    operator_calls, operator_gives, OperatorError, OperatorPlan, OperatorTask,
};
use crate::query::{
    layout_calls, CountPlan, CountTask, DtypeTask, EvalTask, LayoutTask, ShapeTask, StridesTask,
};
use crate::task::{after, answered, Task};

verus! {

/// A call that carries no elements, over another element type. (The calls that do carry elements
/// have no counterpart.)
pub open spec fn typed_call<'a, T>(call: Call<'a, ()>) -> Call<'a, T> {
    match call {
        Call::Install => Call::Install,
        Call::NewArray => Call::NewArray,
        Call::NewData { .. } | Call::NewScalar { .. } => arbitrary(),
        Call::FreeArray { array } => Call::FreeArray { array },
        Call::Invoke { out, op, stream } => Call::Invoke { out, op, stream },
        Call::Eval { array } => Call::Eval { array },
        Call::Size { array } => Call::Size { array },
        Call::Ndim { array } => Call::Ndim { array },
        Call::Shape { array, ndim } => Call::Shape { array, ndim },
        Call::Strides { array, ndim } => Call::Strides { array, ndim },
        Call::Dtype { array } => Call::Dtype { array },
        Call::Item { array } => Call::Item { array },
        Call::Copy { array, len } => Call::Copy { array, len },
        Call::NewGpuStream => Call::NewGpuStream,
        Call::NewCpuStream => Call::NewCpuStream,
        Call::NewStream => Call::NewStream,
        Call::FreeStream { stream } => Call::FreeStream { stream },
        Call::NewDevice => Call::NewDevice,
        Call::FreeDevice { device } => Call::FreeDevice { device },
        Call::StreamDevice { device, stream } => Call::StreamDevice { device, stream },
        Call::DefaultDevice { device } => Call::DefaultDevice { device },
        Call::SetDefaultDevice { device } => Call::SetDefaultDevice { device },
        Call::DefaultStream { stream, device } => Call::DefaultStream { stream, device },
        Call::SetDefaultStream { stream } => Call::SetDefaultStream { stream },
        Call::NewString => Call::NewString,
        Call::ArrayText { string, array } => Call::ArrayText { string, array },
        Call::Version { string } => Call::Version { string },
        Call::StringData { string } => Call::StringData { string },
        Call::FreeString { string } => Call::FreeString { string },
    }
}

/// A reply that carries no elements, over another element type. (The replies that do carry
/// elements have no counterpart.)
pub open spec fn typed_reply<T>(reply: Reply<()>) -> Reply<T> {
    match reply {
        Reply::Done => Reply::Done,
        Reply::Array(array) => Reply::Array(array),
        Reply::Stream(stream) => Reply::Stream(stream),
        Reply::Device(device) => Reply::Device(device),
        Reply::String(string) => Reply::String(string),
        Reply::Status { status, out, message } => Reply::Status { status, out, message },
        Reply::Count(count) => Reply::Count(count),
        Reply::Dims(dims) => Reply::Dims(dims),
        Reply::Strides(strides) => Reply::Strides(strides),
        Reply::Code(code) => Reply::Code(code),
        Reply::Item(_) | Reply::Elements(_) => arbitrary(),
        Reply::Text(text) => Reply::Text(text),
    }
}

/// The calls, over another element type.
pub open spec fn typed_calls<'a, T>(calls: Seq<Call<'a, ()>>) -> Seq<Call<'a, T>> {
    Seq::new(calls.len(), |i: int| typed_call(calls[i]))
}

/// The replies, over another element type.
pub open spec fn typed<T>(replies: Seq<Reply<()>>) -> Seq<Reply<T>> {
    Seq::new(replies.len(), |i: int| typed_reply(replies[i]))
}

/// The plan of an operator on arrays, over another element type. (A plan with a plain value has no
/// counterpart.)
pub open spec fn typed_plan<T>(plan: OperatorPlan<()>) -> OperatorPlan<T> {
    match plan {
        OperatorPlan::Arrays { op, lhs, rhs } => OperatorPlan::Arrays { op, lhs, rhs },
        OperatorPlan::Negate { operand } => OperatorPlan::Negate { operand },
        OperatorPlan::Assign { op, target, rhs } => OperatorPlan::Assign { op, target, rhs },
        _ => arbitrary(),
    }
}

/// All calls of the task have been answered.
pub open spec fn complete<'a, T: Copy, K: Task<'a, T>>(
    plan: K::Plan,
    replies: Seq<Reply<T>>,
) -> bool {
    &&& answered::<T, K>(plan, replies)
    &&& replies.len() == K::calls(plan, replies).len()
}

/// An operation makes the same calls and comes to the same over any element type.
pub proof fn operations_carry_no_elements<'a, T: Copy>(
    plan: OpPlan<'a>,
    replies: Seq<Reply<()>>,
    output: Result<Array, Error>,
)
    requires
        complete::<(), OpTask<'a, ()>>(plan, replies),
    ensures
        op_calls(plan, typed::<T>(replies)) == typed_calls::<T>(op_calls(plan, replies)),
        op_gives(typed::<T>(replies), output) == op_gives(replies, output),
{
    let calls = <OpTask<'a, ()> as Task<'a, ()>>::calls(plan, replies);
    assert(calls[1] is NewArray && replies[1] is Array);
    assert(calls[2] is Invoke && replies[2] is Status);
    assert(op_calls(plan, typed::<T>(replies)) =~= typed_calls::<T>(op_calls(plan, replies)));
}

/// An operator on arrays makes the same calls and comes to the same over any element type.
pub proof fn operators_carry_no_elements<'a, T: Copy>(
    plan: OperatorPlan<()>,
    replies: Seq<Reply<()>>,
    output: Result<Array, OperatorError>,
)
    requires
        plan.scalar::<'a>() is None,
        complete::<(), OperatorTask<'a, ()>>(plan, replies),
    ensures
        operator_calls::<'a, T>(typed_plan(plan), typed(replies)) == typed_calls::<T>(
            operator_calls(plan, replies),
        ),
        operator_gives(typed_plan::<T>(plan), typed(replies), output) == operator_gives(
            plan,
            replies,
            output,
        ),
        typed_plan::<T>(plan).replaced() == plan.replaced(),
{
    let calls = <OperatorTask<'a, ()> as Task<'a, ()>>::calls(plan, replies);
    let more = typed::<T>(replies);
    assert(calls[1] is NewDevice && replies[1] is Device);
    assert(calls[2] is DefaultDevice && replies[2] is Device);
    assert(calls[3] is NewStream && replies[3] is Stream);
    assert(calls[4] is DefaultStream && replies[4] is Stream);
    assert(calls[7] is NewArray && replies[7] is Array);
    assert(calls[8] is Invoke && replies[8] is Status);
    assert(after(replies, 6)[1] == replies[7] && after(replies, 6)[2] == replies[8]);
    assert(after(more, 6)[1] == more[7] && after(more, 6)[2] == more[8]);
    assert(operator_calls::<'a, T>(typed_plan(plan), more) =~= typed_calls::<T>(calls));
}

/// Evaluating an array and asking for its properties make the same calls over any element type.
pub proof fn queries_carry_no_elements<'a, T: Copy + 'a>(
    array: RawArray,
    count: CountPlan,
    replies: Seq<Reply<()>>,
)
    ensures
        <EvalTask<'a, T> as Task<'a, T>>::calls(array, typed(replies)) == typed_calls::<T>(
            <EvalTask<'a, ()> as Task<'a, ()>>::calls(array, replies),
        ),
        <CountTask<'a, T> as Task<'a, T>>::calls(count, typed(replies)) == typed_calls::<T>(
            <CountTask<'a, ()> as Task<'a, ()>>::calls(count, replies),
        ),
        <DtypeTask<'a, T> as Task<'a, T>>::calls(array, typed(replies)) == typed_calls::<T>(
            <DtypeTask<'a, ()> as Task<'a, ()>>::calls(array, replies),
        ),
        complete::<(), ShapeTask<'a, ()>>(array, replies) ==> <ShapeTask<'a, T> as Task<
            'a,
            T,
        >>::calls(array, typed(replies)) == typed_calls::<T>(
            <ShapeTask<'a, ()> as Task<'a, ()>>::calls(array, replies),
        ),
        complete::<(), StridesTask<'a, ()>>(array, replies) ==> <StridesTask<'a, T> as Task<
            'a,
            T,
        >>::calls(array, typed(replies)) == typed_calls::<T>(
            <StridesTask<'a, ()> as Task<'a, ()>>::calls(array, replies),
        ),
        complete::<(), LayoutTask<'a, ()>>(array, replies) ==> layout_calls::<'a, T>(
            array,
            typed(replies),
        ) == typed_calls::<T>(layout_calls(array, replies)),
{
    let eval = <EvalTask<'a, ()> as Task<'a, ()>>::calls(array, replies);
    assert(<EvalTask<'a, T> as Task<'a, T>>::calls(array, typed(replies)) =~= typed_calls::<T>(
        eval,
    ));
    let counts = <CountTask<'a, ()> as Task<'a, ()>>::calls(count, replies);
    assert(<CountTask<'a, T> as Task<'a, T>>::calls(count, typed(replies)) =~= typed_calls::<T>(
        counts,
    ));
    let dtype = <DtypeTask<'a, ()> as Task<'a, ()>>::calls(array, replies);
    assert(<DtypeTask<'a, T> as Task<'a, T>>::calls(array, typed(replies)) =~= typed_calls::<T>(
        dtype,
    ));
    if complete::<(), ShapeTask<'a, ()>>(array, replies) {
        let calls = <ShapeTask<'a, ()> as Task<'a, ()>>::calls(array, replies);
        assert(calls[0] is Ndim && replies[0] is Count);
        let typed_shape = <ShapeTask<'a, T> as Task<'a, T>>::calls(array, typed(replies));
        assert(typed_shape =~= typed_calls::<T>(calls));
    }
    if complete::<(), StridesTask<'a, ()>>(array, replies) {
        let calls = <StridesTask<'a, ()> as Task<'a, ()>>::calls(array, replies);
        assert(calls[0] is Ndim && replies[0] is Count);
        let typed_strides = <StridesTask<'a, T> as Task<'a, T>>::calls(array, typed(replies));
        assert(typed_strides =~= typed_calls::<T>(calls));
    }
    if complete::<(), LayoutTask<'a, ()>>(array, replies) {
        let calls = <LayoutTask<'a, ()> as Task<'a, ()>>::calls(array, replies);
        assert(calls[0] is Ndim && replies[0] is Count);
        assert(layout_calls::<'a, T>(array, typed(replies)) =~= typed_calls::<T>(calls));
    }
}

} // verus!
