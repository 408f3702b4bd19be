//! Running one operation.

use std::marker::PhantomData;

use vstd::prelude::*;

use crate::array::Array;
use crate::call::{Call, Op, RawArray, RawStream, Reply};
use crate::error::Error;
use crate::task::{Step, Task};

verus! {

/// An operation and the stream to run it on.
#[derive(Clone, Copy, Debug)]
pub struct OpPlan<'a> {
    pub op: Op<'a>,
    pub stream: RawStream,
}

/// The operation failed, by the reply to its call.
pub open spec fn failed<T>(reply: Reply<T>) -> bool {
    reply->status != 0
}

/// The calls that run an operation: it gets a fresh result handle, which is freed again if the
/// operation fails.
pub open spec fn op_calls<'a, T>(plan: OpPlan<'a>, replies: Seq<Reply<T>>) -> Seq<Call<'a, T>> {
    seq![
        Call::Install,
        Call::NewArray,
        Call::Invoke { out: replies[1]->Array_0, op: plan.op, stream: plan.stream },
    ] + if failed(replies[2]) {
        seq![Call::FreeArray { array: replies[2]->out }]
    } else {
        seq![]
    }
}

/// What running an operation comes to: the array behind the result handle, or, if and only if the
/// operation failed, MLX's message.
pub open spec fn op_gives<T>(replies: Seq<Reply<T>>, output: Result<Array, Error>) -> bool {
    match output {
        Ok(array) => !failed(replies[2]) && array.raw() == replies[2]->out,
        Err(error) => failed(replies[2]) && error@ == replies[2]->message@,
    }
}

enum Stage {
    Install,
    New,
    Invoke { out: RawArray },
    Free { out: RawArray, error: Error },
}

/// Runs one operation.
pub struct OpTask<'a, T> {
    plan: OpPlan<'a>,
    stage: Stage,
    replies: Ghost<Seq<Reply<T>>>,
    bound: PhantomData<&'a Array>,
}

impl<'a, T> OpTask<'a, T> {
    #[verifier::type_invariant]
    spec fn well_formed(self) -> bool {
        let replies = self.replies@;
        match self.stage {
            Stage::Install => replies.len() == 0,
            Stage::New => replies.len() == 1,
            Stage::Invoke { out } => replies.len() == 2 && replies[1]->Array_0 == out,
            Stage::Free { out, error } => {
                &&& replies.len() == 3
                &&& failed(replies[2])
                &&& replies[2]->out == out
                &&& replies[2]->message@ == error@
            },
        }
    }
}

impl<'a, T: Copy> OpTask<'a, T> {
    /// A task that runs `op` on `stream`.
    pub(crate) fn new(op: Op<'a>, stream: RawStream) -> (task: Self)
        ensures
            task.plan() == (OpPlan { op, stream }),
            task.replies() == Seq::<Reply<T>>::empty(),
    {
        OpTask {
            plan: OpPlan { op, stream },
            stage: Stage::Install,
            replies: Ghost(Seq::empty()),
            bound: PhantomData,
        }
    }
}

impl<'a, T: Copy> Task<'a, T> for OpTask<'a, T> {
    type Plan = OpPlan<'a>;

    type Output = Result<Array, Error>;

    closed spec fn plan(&self) -> OpPlan<'a> {
        self.plan
    }

    closed spec fn replies(&self) -> Seq<Reply<T>> {
        self.replies@
    }

    open spec fn calls(plan: OpPlan<'a>, replies: Seq<Reply<T>>) -> Seq<Call<'a, T>> {
        op_calls(plan, replies)
    }

    open spec fn gives(
        plan: OpPlan<'a>,
        replies: Seq<Reply<T>>,
        output: Result<Array, Error>,
    ) -> bool {
        op_gives(replies, output)
    }

    proof fn calls_are_causal(
        plan: OpPlan<'a>,
        a: Seq<Reply<T>>,
        b: Seq<Reply<T>>,
        n: int,
    ) {
        assert(n > 1 ==> a[1] == b[1]);
        assert(n > 2 ==> a[2] == b[2]);
    }

    fn call(&self) -> (call: Call<'a, T>) {
        proof {
            use_type_invariant(self);
        }
        match &self.stage {
            Stage::Install => Call::Install,
            Stage::New => Call::NewArray,
            Stage::Invoke { out } => Call::Invoke {
                out: *out,
                op: self.plan.op,
                stream: self.plan.stream,
            },
            Stage::Free { out, .. } => Call::FreeArray { array: *out },
        }
    }

    fn resume(self, reply: Reply<T>) -> (step: Step<Self, Result<Array, Error>>) {
        proof {
            use_type_invariant(&self);
        }
        let plan = self.plan;
        let replies: Ghost<Seq<Reply<T>>> = Ghost(self.replies@.push(reply));
        match (self.stage, reply) {
            (Stage::Install, _) => Step::More(
                OpTask { plan, stage: Stage::New, replies, bound: PhantomData },
            ),
            (Stage::New, Reply::Array(out)) => {
                Step::More(
                    OpTask { plan, stage: Stage::Invoke { out }, replies, bound: PhantomData },
                )
            },
            (Stage::Invoke { .. }, Reply::Status { status, out, message }) => {
                match Array::from_op(out, status, message) {
                    Ok(array) => Step::Done(Ok(array)),
                    Err((out, error)) => {
                        Step::More(
                            OpTask {
                                plan,
                                stage: Stage::Free { out, error },
                                replies,
                                bound: PhantomData,
                            },
                        )
                    },
                }
            },
            (Stage::Free { error, .. }, _) => Step::Done(Err(error)),
            _ => vstd::pervasive::unreached(),
        }
    }
}

} // verus!
