//! Running an operation on the current default stream.

use vstd::prelude::*;

use crate::array::Array;
use crate::call::{Call, Op, RawArray, RawStream, Reply};
use crate::error::Error;
use crate::op::{failed, op_calls, op_gives, OpPlan, OpTask};
use crate::stream::{stream_calls, StreamPlan, StreamTask};
use crate::task::{after, lemma_after_push, Step, Task};

verus! {

/// An operation to run on the default stream, and the array whose place its result takes, if it
/// takes the place of one.
#[derive(Clone, Copy, Debug)]
pub struct DefaultPlan<'a> {
    pub op: Op<'a>,
    pub replaced: Option<RawArray>,
}

/// The operation, on the default stream that the replies brought.
pub open spec fn on_default<'a, T>(op: Op<'a>, replies: Seq<Reply<T>>) -> OpPlan<'a> {
    OpPlan { op, stream: replies[4]->Stream_0 }
}

/// The call that frees the array whose place the result takes. A failed operation has no result,
/// and the array stays.
pub open spec fn replace_calls<'a, T>(replaced: Option<RawArray>, failed: bool) -> Seq<
    Call<'a, T>,
> {
    match replaced {
        Some(array) if !failed => seq![Call::FreeArray { array }],
        _ => seq![],
    }
}

/// The calls that run an operation on the default stream: the stream is looked up first and freed
/// at the end.
pub open spec fn default_calls<'a, T>(plan: DefaultPlan<'a>, replies: Seq<Reply<T>>) -> Seq<
    Call<'a, T>,
> {
    stream_calls(StreamPlan::Default, replies) + op_calls(
        on_default(plan.op, replies),
        after(replies, 6),
    ) + replace_calls(plan.replaced, failed(replies[8])) + seq![
        Call::FreeStream { stream: replies[4]->Stream_0 },
    ]
}

#[allow(inconsistent_fields)]
enum Stage<'a, T> {
    Stream { task: StreamTask<T> },
    Run { stream: RawStream, task: OpTask<'a, T> },
    Replace { stream: RawStream, replaced: RawArray, array: Array },
    Free { stream: RawStream, output: Result<Array, Error> },
}

/// Runs an operation on the current default stream.
pub struct DefaultTask<'a, T: Copy> {
    plan: DefaultPlan<'a>,
    stage: Stage<'a, T>,
    replies: Ghost<Seq<Reply<T>>>,
}

impl<'a, T: Copy> DefaultTask<'a, T> {
    #[verifier::type_invariant]
    spec fn well_formed(self) -> bool {
        let replies = self.replies@;
        match self.stage {
            Stage::Stream { task } => {
                &&& task.plan() == StreamPlan::Default
                &&& task.replies() == replies
                &&& task.replies().len() < stream_calls(task.plan(), task.replies()).len()
            },
            Stage::Run { stream, task } => {
                &&& replies.len() >= 6
                &&& replies[4]->Stream_0 == stream
                &&& task.plan() == on_default(self.plan.op, replies)
                &&& task.replies() == after(replies, 6)
                &&& task.replies().len() < op_calls(task.plan(), task.replies()).len()
            },
            Stage::Replace { stream, replaced, array } => {
                &&& replies.len() == 9
                &&& replies[4]->Stream_0 == stream
                &&& !failed(replies[8])
                &&& self.plan.replaced == Some(replaced)
                &&& op_gives(after(replies, 6), Ok(array))
            },
            Stage::Free { stream, output } => {
                &&& replies.len() == 6 + op_calls(
                    on_default(self.plan.op, replies),
                    after(replies, 6),
                ).len() + replace_calls::<T>(self.plan.replaced, failed(replies[8])).len()
                &&& replies[4]->Stream_0 == stream
                &&& op_gives(after(replies, 6), output)
            },
        }
    }

    /// A task that carries this plan out.
    pub(crate) fn new(plan: DefaultPlan<'a>) -> (task: Self)
        ensures
            task.plan() == plan,
            task.replies() == Seq::<Reply<T>>::empty(),
    {
        let stage = Stage::Stream { task: StreamTask::new(StreamPlan::Default) };
        DefaultTask { plan, stage, replies: Ghost(Seq::empty()) }
    }
}

impl<'a, T: Copy> Task<'a, T> for DefaultTask<'a, T> {
    type Plan = DefaultPlan<'a>;

    type Output = Result<Array, Error>;

    closed spec fn plan(&self) -> DefaultPlan<'a> {
        self.plan
    }

    closed spec fn replies(&self) -> Seq<Reply<T>> {
        self.replies@
    }

    open spec fn calls(plan: DefaultPlan<'a>, replies: Seq<Reply<T>>) -> Seq<Call<'a, T>> {
        default_calls(plan, replies)
    }

    open spec fn gives(
        plan: DefaultPlan<'a>,
        replies: Seq<Reply<T>>,
        output: Result<Array, Error>,
    ) -> bool {
        op_gives(after(replies, 6), output)
    }

    proof fn calls_are_causal(
        plan: DefaultPlan<'a>,
        a: Seq<Reply<T>>,
        b: Seq<Reply<T>>,
        n: int,
    ) {
        assert(forall|i: int| 0 <= i < n ==> #[trigger] a[i] == b[i]);
        assert(n >= 6 ==> forall|i: int|
            0 <= i < n - 6 ==> #[trigger] after(a, 6)[i] == after(b, 6)[i]);
    }

    fn call(&self) -> (call: Call<'a, T>) {
        proof {
            use_type_invariant(self);
        }
        match &self.stage {
            Stage::Stream { task } => task.call(),
            Stage::Run { task, .. } => task.call(),
            Stage::Replace { replaced, .. } => Call::FreeArray { array: *replaced },
            Stage::Free { stream, .. } => Call::FreeStream { stream: *stream },
        }
    }

    fn resume(self, reply: Reply<T>) -> (step: Step<Self, Result<Array, Error>>) {
        proof {
            use_type_invariant(&self);
        }
        let plan = self.plan;
        let ghost before = self.replies@;
        let replies: Ghost<Seq<Reply<T>>> = Ghost(self.replies@.push(reply));
        match self.stage {
            Stage::Stream { task } => match task.resume(reply) {
                Step::More(task) => {
                    Step::More(DefaultTask { plan, stage: Stage::Stream { task }, replies })
                },
                Step::Done(stream) => {
                    let stream = stream.as_raw();
                    assert(after(replies@, 6) =~= Seq::<Reply<T>>::empty());
                    let stage = Stage::Run { stream, task: OpTask::new(plan.op, stream) };
                    Step::More(DefaultTask { plan, stage, replies })
                },
            },
            Stage::Run { stream, task } => {
                proof {
                    lemma_after_push(before, reply, 6);
                }
                match task.resume(reply) {
                    Step::More(task) => {
                        let stage = Stage::Run { stream, task };
                        Step::More(DefaultTask { plan, stage, replies })
                    },
                    Step::Done(output) => match (plan.replaced, output) {
                        (Some(replaced), Ok(array)) => {
                            let stage = Stage::Replace { stream, replaced, array };
                            Step::More(DefaultTask { plan, stage, replies })
                        },
                        (_, output) => {
                            let stage = Stage::Free { stream, output };
                            Step::More(DefaultTask { plan, stage, replies })
                        },
                    },
                }
            },
            Stage::Replace { stream, array, .. } => {
                proof {
                    lemma_after_push(before, reply, 6);
                }
                let stage = Stage::Free { stream, output: Ok(array) };
                Step::More(DefaultTask { plan, stage, replies })
            },
            Stage::Free { output, .. } => {
                proof {
                    lemma_after_push(before, reply, 6);
                }
                Step::Done(output)
            },
        }
    }
}

} // verus!
