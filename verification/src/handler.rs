//! When the error handler is in place.
//!
//! By default MLX ends the process when a function of its C interface fails. An error handler
//! keeps it from doing so, and has to be in place before the first call that may fail. Copying a
//! storage buffer is the one task that does not see to that itself: it is meant for arrays that
//! have been evaluated, and evaluation does.

use vstd::prelude::*;

use crate::call::{Call, RawArray, RawStream, Reply};
use crate::construct::{build_calls, BuildPlan};
use crate::describe::{describe_calls, DescribePlan};
use crate::full::{full_calls, FullPlan};
use crate::item::item_calls;
use crate::op::{op_calls, OpPlan};
use crate::operator::{operator_calls, OperatorPlan};
use crate::query::EvalTask;
use crate::read::{read_calls, ReadPlan};
use crate::stream::{set_default_calls, stream_calls, StreamPlan};
use crate::task::Task;
use crate::to_vec::to_vec_calls;

verus! {

/// The call may fail, and would then reach the error handler.
pub open spec fn may_fail<T>(call: Call<T>) -> bool {
    match call {
        Call::NewData { .. }
        | Call::NewScalar { .. }
        | Call::Invoke { .. }
        | Call::Eval { .. }
        | Call::Item { .. }
        | Call::Copy { .. }
        | Call::NewGpuStream
        | Call::NewCpuStream
        | Call::StreamDevice { .. }
        | Call::DefaultDevice { .. }
        | Call::SetDefaultDevice { .. }
        | Call::DefaultStream { .. }
        | Call::SetDefaultStream { .. }
        | Call::ArrayText { .. } => true,
        _ => false,
    }
}

/// If any of the calls may fail, the error handler is installed before all of them.
pub open spec fn guarded<T>(calls: Seq<Call<T>>) -> bool {
    forall|n: int| 0 <= n < calls.len() && may_fail(#[trigger] calls[n]) ==> calls[0] is Install
}

/// Building an array and getting or setting a stream install the error handler first.
pub proof fn constructors_are_guarded<'a, T: Copy>(
    build: BuildPlan<'a, T>,
    full: FullPlan<'a, T>,
    stream: StreamPlan,
    default: RawStream,
    replies: Seq<Reply<T>>,
)
    ensures
        guarded(build_calls(build)),
        guarded(full_calls(full, replies)),
        guarded(stream_calls::<'a, T>(stream, replies)),
        guarded(set_default_calls::<'a, T>(default, replies)),
{
}

/// Operations and operators install the error handler first.
pub proof fn operations_are_guarded<'a, T: Copy>(
    op: OpPlan<'a>,
    operator: OperatorPlan<T>,
    replies: Seq<Reply<T>>,
)
    ensures
        guarded(op_calls::<T>(op, replies)),
        guarded(operator_calls::<'a, T>(operator, replies)),
{
}

/// Evaluating, reading and describing an array install the error handler first.
pub proof fn reads_are_guarded<'a, T: Copy>(
    array: RawArray,
    plan: ReadPlan,
    text: DescribePlan,
    replies: Seq<Reply<T>>,
)
    ensures
        guarded(<EvalTask<'a, T> as Task<'a, T>>::calls(array, replies)),
        guarded(item_calls::<'a, T>(array, replies)),
        guarded(to_vec_calls::<'a, T>(plan, replies)),
        guarded(describe_calls::<'a, T>(text, replies)),
{
}

/// Copying a storage buffer comes after an evaluation, which installs the error handler first.
pub proof fn buffers_are_read_after_the_handler_is_in_place<'a, T: Copy>(
    plan: ReadPlan,
    eval_replies: Seq<Reply<T>>,
    read_replies: Seq<Reply<T>>,
)
    ensures
        guarded(
            <EvalTask<'a, T> as Task<'a, T>>::calls(plan.array, eval_replies) + read_calls(
                plan,
                read_replies,
            ),
        ),
{
}

} // verus!
