//! Reading the elements of an array through a row-contiguous copy of it.

use vstd::prelude::*;
use vstd::string::*;

use crate::call::{Call, Op, RawArray, RawStream, Reply};
use crate::dtype::Dtype;
use crate::error::Error;
use crate::op::{failed, op_calls, OpPlan, OpTask};
use crate::read::{read_calls, read_gives, ReadPlan, ReadTask};
use crate::stream::{stream_calls, StreamPlan, StreamTask};
use crate::task::{after, lemma_after_push, Step, Task};

verus! {

/// Why the elements of an array could not be read.
#[derive(Debug)]
pub enum ToVecError {
    /// The array has another element type than the wanted one.
    Dtype { found: Dtype },
    /// The array could not be made contiguous.
    Contiguous { error: Error },
}

impl ToVecError {
    /// What the error prints.
    pub open spec fn text(&self) -> Seq<char> {
        match self {
            ToVecError::Dtype { found } => "array dtype "@ + found.text()
                + " does not match requested element type"@,
            ToVecError::Contiguous { error } => "to_vec: failed to make array contiguous: "@
                + error.text(),
        }
    }

    /// The error as it is shown to people.
    pub fn describe(&self) -> (text: String)
        ensures
            text@ == self.text(),
    {
        match self {
            ToVecError::Dtype { found } => {
                let mut text = String::from_str("array dtype ");
                text.append(found.name());
                text.append(" does not match requested element type");
                text
            },
            ToVecError::Contiguous { error } => {
                let mut text = String::from_str("to_vec: failed to make array contiguous: ");
                text.append(error.describe().as_str());
                text
            },
        }
    }
}

/// The operation that makes a row-contiguous copy of an array, on the CPU stream that the replies
/// brought: the copy is about to be read from here, so it stays off the GPU.
pub open spec fn copy_plan<'a, T>(array: RawArray, replies: Seq<Reply<T>>) -> OpPlan<'a> {
    OpPlan {
        op: Op::Contiguous { a: array, allow_col_major: false },
        stream: replies[1]->Stream_0,
    }
}

/// The calls that copy an array into a row-contiguous one, which is then evaluated, read and freed.
/// The stream that the copy ran on is freed as soon as the copy is there, or has failed.
pub open spec fn copy_calls<'a, T>(plan: ReadPlan, replies: Seq<Reply<T>>) -> Seq<Call<'a, T>> {
    let copy = replies[4]->out;
    stream_calls(StreamPlan::Cpu, replies) + op_calls(
        copy_plan(plan.array, replies),
        after(replies, 2),
    ) + seq![Call::FreeStream { stream: replies[1]->Stream_0 }] + if failed(replies[4]) {
        seq![]
    } else {
        seq![Call::Install, Call::Eval { array: copy }] + read_calls(
            ReadPlan { array: copy, dtype: plan.dtype },
            after(replies, 8),
        ) + seq![Call::FreeArray { array: copy }]
    }
}

/// What reading the storage buffer of an array comes to, seen as the end of a longer task.
pub open spec fn read_outcome<T>(
    plan: ReadPlan,
    replies: Seq<Reply<T>>,
    output: Result<Vec<T>, ToVecError>,
) -> bool {
    match output {
        Ok(elements) => read_gives(plan, replies, Ok(elements)),
        Err(ToVecError::Dtype { found }) => read_gives(plan, replies, Err(found)),
        Err(ToVecError::Contiguous { .. }) => false,
    }
}

/// What reading an array through a copy comes to.
pub open spec fn copy_gives<T>(
    plan: ReadPlan,
    replies: Seq<Reply<T>>,
    output: Result<Vec<T>, ToVecError>,
) -> bool {
    if failed(replies[4]) {
        output matches Err(ToVecError::Contiguous { error }) && error@ == replies[4]->message@
    } else {
        read_outcome(
            ReadPlan { array: replies[4]->out, dtype: plan.dtype },
            after(replies, 8),
            output,
        )
    }
}

/// The outcome of reading a storage buffer as the outcome of the whole task.
pub(crate) fn finish<T>(output: Result<Vec<T>, Dtype>) -> (result: Result<Vec<T>, ToVecError>)
    ensures
        match output {
            Ok(elements) => result == Ok::<Vec<T>, ToVecError>(elements),
            Err(found) => result == Err::<Vec<T>, ToVecError>(ToVecError::Dtype { found }),
        },
{
    match output {
        Ok(elements) => Ok(elements),
        Err(found) => Err(ToVecError::Dtype { found }),
    }
}

#[allow(inconsistent_fields)]
enum Stage<'a, T> {
    Stream { task: StreamTask<T> },
    Copy { stream: RawStream, task: OpTask<'a, T> },
    FailFreeStream { stream: RawStream, error: Error },
    FreeStream { stream: RawStream, copy: RawArray },
    Install { copy: RawArray },
    Eval { copy: RawArray },
    Read { copy: RawArray, task: ReadTask<'a, T> },
    Free { copy: RawArray, output: Result<Vec<T>, ToVecError> },
}

/// Reads the elements of an array through a row-contiguous copy of it.
pub struct CopyTask<'a, T: Copy> {
    plan: ReadPlan,
    stage: Stage<'a, T>,
    replies: Ghost<Seq<Reply<T>>>,
}

impl<'a, T: Copy> CopyTask<'a, T> {
    #[verifier::type_invariant]
    spec fn well_formed(self) -> bool {
        let replies = self.replies@;
        match self.stage {
            Stage::Stream { task } => {
                &&& task.plan() == StreamPlan::Cpu
                &&& task.replies() == replies
                &&& task.replies().len() < stream_calls(task.plan(), task.replies()).len()
            },
            Stage::Copy { stream, task } => {
                &&& replies.len() >= 2
                &&& replies[1]->Stream_0 == stream
                &&& task.plan() == copy_plan::<T>(self.plan.array, replies)
                &&& task.replies() == after(replies, 2)
                &&& task.replies().len() < op_calls(task.plan(), task.replies()).len()
            },
            Stage::FailFreeStream { stream, error } => {
                &&& replies.len() == 6
                &&& replies[1]->Stream_0 == stream
                &&& failed(replies[4])
                &&& error@ == replies[4]->message@
            },
            Stage::FreeStream { stream, copy } => {
                &&& replies.len() == 5
                &&& replies[1]->Stream_0 == stream
                &&& !failed(replies[4])
                &&& copy == replies[4]->out
            },
            Stage::Install { copy } => {
                &&& replies.len() == 6
                &&& !failed(replies[4])
                &&& copy == replies[4]->out
            },
            Stage::Eval { copy } => {
                &&& replies.len() == 7
                &&& !failed(replies[4])
                &&& copy == replies[4]->out
            },
            Stage::Read { copy, task } => {
                &&& replies.len() >= 8
                &&& !failed(replies[4])
                &&& copy == replies[4]->out
                &&& task.plan() == (ReadPlan { array: copy, dtype: self.plan.dtype })
                &&& task.replies() == after(replies, 8)
                &&& task.replies().len() < read_calls(task.plan(), task.replies()).len()
            },
            Stage::Free { copy, output } => {
                let plan = ReadPlan { array: copy, dtype: self.plan.dtype };
                &&& replies.len() == 8 + read_calls(plan, after(replies, 8)).len()
                &&& !failed(replies[4])
                &&& copy == replies[4]->out
                &&& read_outcome(plan, after(replies, 8), output)
            },
        }
    }

    /// A task that reads `plan.array` through a row-contiguous copy.
    pub(crate) fn new(plan: ReadPlan) -> (task: Self)
        ensures
            task.plan() == plan,
            task.replies() == Seq::<Reply<T>>::empty(),
    {
        let stage = Stage::Stream { task: StreamTask::new(StreamPlan::Cpu) };
        CopyTask { plan, stage, replies: Ghost(Seq::empty()) }
    }
}

impl<'a, T: Copy> Task<'a, T> for CopyTask<'a, T> {
    type Plan = ReadPlan;

    type Output = Result<Vec<T>, ToVecError>;

    closed spec fn plan(&self) -> ReadPlan {
        self.plan
    }

    closed spec fn replies(&self) -> Seq<Reply<T>> {
        self.replies@
    }

    open spec fn calls(plan: ReadPlan, replies: Seq<Reply<T>>) -> Seq<Call<'a, T>> {
        copy_calls(plan, replies)
    }

    open spec fn gives(
        plan: ReadPlan,
        replies: Seq<Reply<T>>,
        output: Result<Vec<T>, ToVecError>,
    ) -> bool {
        copy_gives(plan, replies, output)
    }

    proof fn calls_are_causal(plan: ReadPlan, a: Seq<Reply<T>>, b: Seq<Reply<T>>, n: int) {
        assert(forall|i: int| 0 <= i < n ==> #[trigger] a[i] == b[i]);
        assert(n >= 8 ==> forall|i: int|
            0 <= i < n - 8 ==> #[trigger] after(a, 8)[i] == after(b, 8)[i]);
        assert(n >= 2 ==> forall|i: int|
            0 <= i < n - 2 ==> #[trigger] after(a, 2)[i] == after(b, 2)[i]);
    }

    fn call(&self) -> (call: Call<'a, T>) {
        proof {
            use_type_invariant(self);
        }
        match &self.stage {
            Stage::Stream { task } => task.call(),
            Stage::Copy { task, .. } => task.call(),
            Stage::FailFreeStream { stream, .. } => Call::FreeStream { stream: *stream },
            Stage::FreeStream { stream, .. } => Call::FreeStream { stream: *stream },
            Stage::Install { .. } => Call::Install,
            Stage::Eval { copy } => Call::Eval { array: *copy },
            Stage::Read { task, .. } => task.call(),
            Stage::Free { copy, .. } => Call::FreeArray { array: *copy },
        }
    }

    fn resume(self, reply: Reply<T>) -> (step: Step<Self, Result<Vec<T>, ToVecError>>) {
        proof {
            use_type_invariant(&self);
        }
        let plan = self.plan;
        let ghost before = self.replies@;
        let replies: Ghost<Seq<Reply<T>>> = Ghost(self.replies@.push(reply));
        match self.stage {
            Stage::Stream { task } => match task.resume(reply) {
                Step::More(task) => {
                    Step::More(CopyTask { plan, stage: Stage::Stream { task }, replies })
                },
                Step::Done(stream) => {
                    let stream = stream.as_raw();
                    assert(after(replies@, 2) =~= Seq::<Reply<T>>::empty());
                    let op = Op::Contiguous { a: plan.array, allow_col_major: false };
                    let stage = Stage::Copy { stream, task: OpTask::new(op, stream) };
                    Step::More(CopyTask { plan, stage, replies })
                },
            },
            Stage::Copy { stream, task } => {
                proof {
                    lemma_after_push(before, reply, 2);
                }
                match task.resume(reply) {
                    Step::More(task) => {
                        Step::More(CopyTask { plan, stage: Stage::Copy { stream, task }, replies })
                    },
                    Step::Done(Ok(array)) => {
                        let stage = Stage::FreeStream { stream, copy: array.as_raw() };
                        Step::More(CopyTask { plan, stage, replies })
                    },
                    Step::Done(Err(error)) => {
                        let stage = Stage::FailFreeStream { stream, error };
                        Step::More(CopyTask { plan, stage, replies })
                    },
                }
            },
            Stage::FailFreeStream { error, .. } => Step::Done(
                Err(ToVecError::Contiguous { error }),
            ),
            Stage::FreeStream { copy, .. } => {
                Step::More(CopyTask { plan, stage: Stage::Install { copy }, replies })
            },
            Stage::Install { copy } => {
                Step::More(CopyTask { plan, stage: Stage::Eval { copy }, replies })
            },
            Stage::Eval { copy } => {
                assert(after(replies@, 8) =~= Seq::<Reply<T>>::empty());
                let task = ReadTask::new(ReadPlan { array: copy, dtype: plan.dtype });
                Step::More(CopyTask { plan, stage: Stage::Read { copy, task }, replies })
            },
            Stage::Read { copy, task } => {
                proof {
                    lemma_after_push(before, reply, 8);
                }
                match task.resume(reply) {
                    Step::More(task) => {
                        Step::More(CopyTask { plan, stage: Stage::Read { copy, task }, replies })
                    },
                    Step::Done(output) => {
                        let stage = Stage::Free { copy, output: finish(output) };
                        Step::More(CopyTask { plan, stage, replies })
                    },
                }
            },
            Stage::Free { output, .. } => Step::Done(output),
        }
    }
}

} // verus!
