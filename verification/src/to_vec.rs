//! Reading the elements of an array in logical order.

use vstd::prelude::*;

use crate::call::{Call, RawArray, Reply};
use crate::copy::{copy_calls, copy_gives, finish, read_outcome, CopyTask, ToVecError};
use crate::dtype::Dtype;
use crate::layout::row_contiguous;
use crate::query::{layout_calls, LayoutTask};
use crate::read::{read_calls, ReadPlan, ReadTask};
use crate::task::{after, agree, lemma_after_push, Step, Task};

verus! {

/// The replies say that the array is row-contiguous.
pub open spec fn contiguous<T>(replies: Seq<Reply<T>>) -> bool {
    row_contiguous(replies[3]->Dims_0@, replies[4]->Strides_0@)
}

/// The calls that evaluate an array and ask for its layout.
pub open spec fn eval_calls<'a, T>(array: RawArray, replies: Seq<Reply<T>>) -> Seq<Call<'a, T>> {
    seq![Call::Install, Call::Eval { array }] + layout_calls(array, after(replies, 2))
}

/// The calls that read an array's elements. The storage buffer of a row-contiguous array is read
/// at once; any other array is read through a row-contiguous copy.
pub open spec fn to_vec_calls<'a, T>(plan: ReadPlan, replies: Seq<Reply<T>>) -> Seq<Call<'a, T>> {
    eval_calls(plan.array, replies) + if contiguous(replies) {
        read_calls(plan, after(replies, 5))
    } else {
        copy_calls(plan, after(replies, 5))
    }
}

/// What reading an array's elements comes to.
pub open spec fn to_vec_gives<T>(
    plan: ReadPlan,
    replies: Seq<Reply<T>>,
    output: Result<Vec<T>, ToVecError>,
) -> bool {
    if contiguous(replies) {
        read_outcome(plan, after(replies, 5), output)
    } else {
        copy_gives(plan, after(replies, 5), output)
    }
}

#[allow(inconsistent_fields)]
enum Stage<'a, T: Copy> {
    Install,
    Eval,
    Layout { task: LayoutTask<'a, T> },
    Read { task: ReadTask<'a, T> },
    Copy { task: CopyTask<'a, T> },
}

/// Reads the elements of an array in logical (row-major) order.
pub struct ToVecTask<'a, T: Copy> {
    plan: ReadPlan,
    stage: Stage<'a, T>,
    replies: Ghost<Seq<Reply<T>>>,
}

impl<'a, T: Copy> ToVecTask<'a, T> {
    #[verifier::type_invariant]
    spec fn well_formed(self) -> bool {
        let replies = self.replies@;
        match self.stage {
            Stage::Install => replies.len() == 0,
            Stage::Eval => replies.len() == 1,
            Stage::Layout { task } => {
                &&& replies.len() >= 2
                &&& task.plan() == self.plan.array
                &&& task.replies() == after(replies, 2)
                &&& task.replies().len() < layout_calls(task.plan(), task.replies()).len()
            },
            Stage::Read { task } => {
                &&& replies.len() >= 5
                &&& contiguous(replies)
                &&& task.plan() == self.plan
                &&& task.replies() == after(replies, 5)
                &&& task.replies().len() < read_calls(task.plan(), task.replies()).len()
            },
            Stage::Copy { task } => {
                &&& replies.len() >= 5
                &&& !contiguous(replies)
                &&& task.plan() == self.plan
                &&& task.replies() == after(replies, 5)
                &&& task.replies().len() < copy_calls(task.plan(), task.replies()).len()
            },
        }
    }

    /// A task that reads the elements of `array` as values of element type `dtype`.
    pub(crate) fn new(array: RawArray, dtype: Dtype) -> (task: Self)
        ensures
            task.plan() == (ReadPlan { array, dtype }),
            task.replies() == Seq::<Reply<T>>::empty(),
    {
        let plan = ReadPlan { array, dtype };
        ToVecTask { plan, stage: Stage::Install, replies: Ghost(Seq::empty()) }
    }
}

impl<'a, T: Copy> Task<'a, T> for ToVecTask<'a, T> {
    type Plan = ReadPlan;

    type Output = Result<Vec<T>, ToVecError>;

    closed spec fn plan(&self) -> ReadPlan {
        self.plan
    }

    closed spec fn replies(&self) -> Seq<Reply<T>> {
        self.replies@
    }

    open spec fn calls(plan: ReadPlan, replies: Seq<Reply<T>>) -> Seq<Call<'a, T>> {
        to_vec_calls(plan, replies)
    }

    open spec fn gives(
        plan: ReadPlan,
        replies: Seq<Reply<T>>,
        output: Result<Vec<T>, ToVecError>,
    ) -> bool {
        to_vec_gives(plan, replies, output)
    }

    proof fn calls_are_causal(plan: ReadPlan, a: Seq<Reply<T>>, b: Seq<Reply<T>>, n: int) {
        assert(forall|i: int| 0 <= i < n ==> #[trigger] a[i] == b[i]);
        assert(n > 2 ==> after(a, 2)[0] == after(b, 2)[0]);
        if n >= 5 {
            assert(agree(after(a, 5), after(b, 5), n - 5));
            if contiguous(a) {
                <ReadTask<'a, T> as Task<'a, T>>::calls_are_causal(
                    plan,
                    after(a, 5),
                    after(b, 5),
                    n - 5,
                );
            } else {
                <CopyTask<'a, T> as Task<'a, T>>::calls_are_causal(
                    plan,
                    after(a, 5),
                    after(b, 5),
                    n - 5,
                );
            }
        }
    }

    fn call(&self) -> (call: Call<'a, T>) {
        proof {
            use_type_invariant(self);
        }
        let array = self.plan.array;
        match &self.stage {
            Stage::Install => Call::Install,
            Stage::Eval => Call::Eval { array },
            Stage::Layout { task } => task.call(),
            Stage::Read { task } => task.call(),
            Stage::Copy { task } => task.call(),
        }
    }

    fn resume(self, reply: Reply<T>) -> (step: Step<Self, Result<Vec<T>, ToVecError>>) {
        proof {
            use_type_invariant(&self);
        }
        let plan = self.plan;
        let ghost before = self.replies@;
        let replies: Ghost<Seq<Reply<T>>> = Ghost(self.replies@.push(reply));
        match self.stage {
            Stage::Install => Step::More(ToVecTask { plan, stage: Stage::Eval, replies }),
            Stage::Eval => {
                assert(after(replies@, 2) =~= Seq::<Reply<T>>::empty());
                let stage = Stage::Layout { task: LayoutTask::new(plan.array) };
                Step::More(ToVecTask { plan, stage, replies })
            },
            Stage::Layout { task } => {
                proof {
                    lemma_after_push(before, reply, 2);
                }
                match task.resume(reply) {
                    Step::More(task) => {
                        Step::More(ToVecTask { plan, stage: Stage::Layout { task }, replies })
                    },
                    Step::Done(contiguous) => {
                        assert(after(replies@, 5) =~= Seq::<Reply<T>>::empty());
                        if contiguous {
                            let stage = Stage::Read { task: ReadTask::new(plan) };
                            Step::More(ToVecTask { plan, stage, replies })
                        } else {
                            let stage = Stage::Copy { task: CopyTask::new(plan) };
                            Step::More(ToVecTask { plan, stage, replies })
                        }
                    },
                }
            },
            Stage::Read { task } => {
                proof {
                    lemma_after_push(before, reply, 5);
                }
                match task.resume(reply) {
                    Step::More(task) => {
                        Step::More(ToVecTask { plan, stage: Stage::Read { task }, replies })
                    },
                    Step::Done(output) => Step::Done(finish(output)),
                }
            },
            Stage::Copy { task } => {
                proof {
                    lemma_after_push(before, reply, 5);
                }
                match task.resume(reply) {
                    Step::More(task) => {
                        Step::More(ToVecTask { plan, stage: Stage::Copy { task }, replies })
                    },
                    Step::Done(output) => Step::Done(output),
                }
            },
        }
    }
}

} // verus!
