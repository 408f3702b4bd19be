//! Copying the storage buffer of an array.

use std::marker::PhantomData;

use vstd::prelude::*;

use crate::array::Array;
use crate::call::{Call, RawArray, Reply};
use crate::dtype::Dtype;
use crate::task::{Step, Task};

verus! {

/// An array to read, and the element type to read it as.
#[derive(Clone, Copy, PartialEq, Eq, Structural, Debug)]
pub struct ReadPlan {
    pub array: RawArray,
    pub dtype: Dtype,
}

/// The calls that copy the storage buffer of an evaluated, row-contiguous array. The buffer is
/// touched only if the element type is the wanted one and there is an element at all: the data
/// pointer of an array without elements may be null.
pub open spec fn read_calls<'a, T>(plan: ReadPlan, replies: Seq<Reply<T>>) -> Seq<Call<'a, T>> {
    let array = plan.array;
    seq![Call::Dtype { array }] + if replies[0]->Code_0 != plan.dtype.code() {
        seq![]
    } else {
        seq![Call::Size { array }] + if replies[1]->Count_0 == 0 {
            seq![]
        } else {
            seq![Call::Copy { array, len: replies[1]->Count_0 }]
        }
    }
}

/// What copying the storage buffer comes to: its elements, or the array's element type if that is
/// not the wanted one.
pub open spec fn read_gives<T>(
    plan: ReadPlan,
    replies: Seq<Reply<T>>,
    output: Result<Vec<T>, Dtype>,
) -> bool {
    match output {
        Ok(elements) => {
            &&& replies[0]->Code_0 == plan.dtype.code()
            &&& elements@ == if replies[1]->Count_0 == 0 {
                Seq::<T>::empty()
            } else {
                replies[2]->Elements_0@
            }
        },
        Err(found) => {
            &&& replies[0]->Code_0 != plan.dtype.code()
            &&& found.code() == replies[0]->Code_0
        },
    }
}

enum ReadStage {
    Dtype,
    Size,
    Copy { len: usize },
}

/// Copies the storage buffer of an evaluated, row-contiguous array.
pub struct ReadTask<'a, T> {
    plan: ReadPlan,
    stage: ReadStage,
    replies: Ghost<Seq<Reply<T>>>,
    bound: PhantomData<&'a Array>,
}

impl<'a, T> ReadTask<'a, T> {
    #[verifier::type_invariant]
    spec fn well_formed(self) -> bool {
        let replies = self.replies@;
        match self.stage {
            ReadStage::Dtype => replies.len() == 0,
            ReadStage::Size => {
                replies.len() == 1 && replies[0]->Code_0 == self.plan.dtype.code()
            },
            ReadStage::Copy { len } => {
                &&& replies.len() == 2
                &&& replies[0]->Code_0 == self.plan.dtype.code()
                &&& replies[1]->Count_0 == len
                &&& len != 0
            },
        }
    }
}

impl<'a, T: Copy> ReadTask<'a, T> {
    /// A task that copies the storage buffer of `plan.array`.
    pub(crate) fn new(plan: ReadPlan) -> (task: Self)
        ensures
            task.plan() == plan,
            task.replies() == Seq::<Reply<T>>::empty(),
    {
        ReadTask { plan, stage: ReadStage::Dtype, replies: Ghost(Seq::empty()), bound: PhantomData }
    }
}

impl<'a, T: Copy> Task<'a, T> for ReadTask<'a, T> {
    type Plan = ReadPlan;

    type Output = Result<Vec<T>, Dtype>;

    closed spec fn plan(&self) -> ReadPlan {
        self.plan
    }

    closed spec fn replies(&self) -> Seq<Reply<T>> {
        self.replies@
    }

    open spec fn calls(plan: ReadPlan, replies: Seq<Reply<T>>) -> Seq<Call<'a, T>> {
        read_calls(plan, replies)
    }

    open spec fn gives(
        plan: ReadPlan,
        replies: Seq<Reply<T>>,
        output: Result<Vec<T>, Dtype>,
    ) -> bool {
        read_gives(plan, replies, output)
    }

    proof fn calls_are_causal(plan: ReadPlan, a: Seq<Reply<T>>, b: Seq<Reply<T>>, n: int) {
        assert(n > 0 ==> a[0] == b[0]);
        assert(n > 1 ==> a[1] == b[1]);
    }

    fn call(&self) -> (call: Call<'a, T>) {
        proof {
            use_type_invariant(self);
        }
        let array = self.plan.array;
        match &self.stage {
            ReadStage::Dtype => Call::Dtype { array },
            ReadStage::Size => Call::Size { array },
            ReadStage::Copy { len } => Call::Copy { array, len: *len },
        }
    }

    fn resume(self, reply: Reply<T>) -> (step: Step<Self, Result<Vec<T>, Dtype>>) {
        proof {
            use_type_invariant(&self);
        }
        let plan = self.plan;
        let replies: Ghost<Seq<Reply<T>>> = Ghost(self.replies@.push(reply));
        match (self.stage, reply) {
            (ReadStage::Dtype, Reply::Code(code)) => {
                if code == plan.dtype.as_raw() {
                    Step::More(
                        ReadTask { plan, stage: ReadStage::Size, replies, bound: PhantomData },
                    )
                } else {
                    Step::Done(Err(Dtype::from_raw(code)))
                }
            },
            (ReadStage::Size, Reply::Count(len)) => {
                if len == 0 {
                    Step::Done(Ok(Vec::new()))
                } else {
                    Step::More(
                        ReadTask {
                            plan,
                            stage: ReadStage::Copy { len },
                            replies,
                            bound: PhantomData,
                        },
                    )
                }
            },
            (ReadStage::Copy { .. }, Reply::Elements(elements)) => Step::Done(Ok(elements)),
            _ => vstd::pervasive::unreached(),
        }
    }
}

/// The storage buffer of an array is copied only if it holds elements of the wanted type, and then
/// exactly as many elements are copied as the array has.
pub proof fn buffers_are_copied_with_care<'a, T: Copy>(
    plan: ReadPlan,
    replies: Seq<Reply<T>>,
    i: int,
)
    requires
        0 <= i < read_calls::<'a, T>(plan, replies).len(),
    ensures
        read_calls::<'a, T>(plan, replies)[i] matches Call::Copy { array, len } ==> {
            &&& array == plan.array
            &&& replies[0]->Code_0 == plan.dtype.code()
            &&& replies[1]->Count_0 == len
            &&& len > 0
        },
{
}

} // verus!
