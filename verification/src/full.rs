//! Filling a shape with a value.

use vstd::prelude::*;

use crate::array::Array;
use crate::call::{as_ffi_list, ffi_list, Call, Op, RawArray, RawStream, Reply};
use crate::construct::{build_calls, BuildPlan, BuildTask};
use crate::dtype::Dtype;
use crate::error::Error;
use crate::op::{op_calls, op_gives, OpPlan, OpTask};
use crate::task::{after, lemma_after_push, Step, Task};

verus! {

/// A shape, the value to fill it with, and the stream to do so on.
#[derive(Debug)]
pub struct FullPlan<'a, T> {
    pub shape: &'a [i32],
    pub value: T,
    pub dtype: Dtype,
    pub stream: RawStream,
}

/// The operation that spreads the array `vals` over the shape.
pub open spec fn spread<'a, T>(plan: FullPlan<'a, T>, vals: RawArray) -> OpPlan<'a> {
    OpPlan {
        op: Op::Full { shape: ffi_list(plan.shape), vals, dtype: plan.dtype.code() },
        stream: plan.stream,
    }
}

/// The calls that fill a shape: the value becomes an array without dimensions, which is spread
/// over the shape and freed at the end.
pub open spec fn full_calls<'a, T>(plan: FullPlan<'a, T>, replies: Seq<Reply<T>>) -> Seq<
    Call<'a, T>,
> {
    let vals = replies[1]->Array_0;
    build_calls(BuildPlan::Scalar { value: plan.value, dtype: plan.dtype }) + op_calls(
        spread(plan, vals),
        after(replies, 2),
    ) + seq![Call::FreeArray { array: vals }]
}

#[allow(inconsistent_fields)]
enum Stage<'a, T> {
    Build { task: BuildTask<'a, T> },
    Spread { vals: RawArray, task: OpTask<'a, T> },
    Free { vals: RawArray, output: Result<Array, Error> },
}

/// Fills a shape with a value.
pub struct FullTask<'a, T: Copy> {
    plan: FullPlan<'a, T>,
    stage: Stage<'a, T>,
    replies: Ghost<Seq<Reply<T>>>,
}

impl<'a, T: Copy> FullTask<'a, T> {
    #[verifier::type_invariant]
    spec fn well_formed(self) -> bool {
        let replies = self.replies@;
        match self.stage {
            Stage::Build { task } => {
                &&& task.plan() == (BuildPlan::Scalar {
                    value: self.plan.value,
                    dtype: self.plan.dtype,
                })
                &&& task.replies() == replies
                &&& task.replies().len() < build_calls(task.plan()).len()
            },
            Stage::Spread { vals, task } => {
                &&& replies.len() >= 2
                &&& replies[1]->Array_0 == vals
                &&& task.plan() == spread(self.plan, vals)
                &&& task.replies() == after(replies, 2)
                &&& task.replies().len() < op_calls(task.plan(), task.replies()).len()
            },
            Stage::Free { vals, output } => {
                &&& replies.len() == 2 + op_calls(spread(self.plan, vals), after(replies, 2)).len()
                &&& replies[1]->Array_0 == vals
                &&& op_gives(after(replies, 2), output)
            },
        }
    }

    /// A task that carries this plan out.
    pub(crate) fn new(plan: FullPlan<'a, T>) -> (task: Self)
        ensures
            task.plan() == plan,
            task.replies() == Seq::<Reply<T>>::empty(),
    {
        let stage = Stage::Build { task: BuildTask::from_scalar(plan.value, plan.dtype) };
        FullTask { plan, stage, replies: Ghost(Seq::empty()) }
    }
}

impl<'a, T: Copy> Task<'a, T> for FullTask<'a, T> {
    type Plan = FullPlan<'a, T>;

    type Output = Result<Array, Error>;

    closed spec fn plan(&self) -> FullPlan<'a, T> {
        self.plan
    }

    closed spec fn replies(&self) -> Seq<Reply<T>> {
        self.replies@
    }

    open spec fn calls(plan: FullPlan<'a, T>, replies: Seq<Reply<T>>) -> Seq<Call<'a, T>> {
        full_calls(plan, replies)
    }

    open spec fn gives(
        plan: FullPlan<'a, T>,
        replies: Seq<Reply<T>>,
        output: Result<Array, Error>,
    ) -> bool {
        op_gives(after(replies, 2), output)
    }

    proof fn calls_are_causal(
        plan: FullPlan<'a, T>,
        a: Seq<Reply<T>>,
        b: Seq<Reply<T>>,
        n: int,
    ) {
        assert(n > 1 ==> a[1] == b[1]);
        assert(n >= 2 ==> forall|i: int|
            0 <= i < n - 2 ==> #[trigger] after(a, 2)[i] == after(b, 2)[i]);
    }

    fn call(&self) -> (call: Call<'a, T>) {
        proof {
            use_type_invariant(self);
        }
        match &self.stage {
            Stage::Build { task } => task.call(),
            Stage::Spread { task, .. } => task.call(),
            Stage::Free { vals, .. } => Call::FreeArray { array: *vals },
        }
    }

    fn resume(self, reply: Reply<T>) -> (step: Step<Self, Result<Array, Error>>) {
        proof {
            use_type_invariant(&self);
        }
        let plan = self.plan;
        let ghost before = self.replies@;
        let replies: Ghost<Seq<Reply<T>>> = Ghost(self.replies@.push(reply));
        match self.stage {
            Stage::Build { task } => match task.resume(reply) {
                Step::More(task) => {
                    Step::More(FullTask { plan, stage: Stage::Build { task }, replies })
                },
                Step::Done(array) => {
                    let vals = array.as_raw();
                    assert(after(replies@, 2) =~= Seq::<Reply<T>>::empty());
                    let op = Op::Full {
                        shape: as_ffi_list(plan.shape),
                        vals,
                        dtype: plan.dtype.as_raw(),
                    };
                    let task = OpTask::new(op, plan.stream);
                    Step::More(FullTask { plan, stage: Stage::Spread { vals, task }, replies })
                },
            },
            Stage::Spread { vals, task } => {
                proof {
                    lemma_after_push(before, reply, 2);
                }
                match task.resume(reply) {
                    Step::More(task) => {
                        Step::More(FullTask { plan, stage: Stage::Spread { vals, task }, replies })
                    },
                    Step::Done(output) => {
                        Step::More(FullTask { plan, stage: Stage::Free { vals, output }, replies })
                    },
                }
            },
            Stage::Free { output, .. } => {
                proof {
                    lemma_after_push(before, reply, 2);
                }
                Step::Done(output)
            },
        }
    }
}

} // verus!
