//! Text that MLX writes: the description of an array, and MLX's version.

use std::marker::PhantomData;

use vstd::prelude::*;

use crate::array::Array;
use crate::call::{Call, RawArray, RawString, Reply};
use crate::task::{Step, Task};

verus! {

/// Which text to get.
#[derive(Clone, Copy, PartialEq, Eq, Structural, Debug)]
pub enum DescribePlan {
    /// The description of an array.
    Array { array: RawArray },
    /// The version of the MLX library.
    Version,
}

/// The calls that get a text: MLX writes it into a string of its own, which is freed once its
/// characters are read.
pub open spec fn describe_calls<'a, T>(plan: DescribePlan, replies: Seq<Reply<T>>) -> Seq<
    Call<'a, T>,
> {
    match plan {
        DescribePlan::Array { array } => seq![
            Call::Install,
            Call::NewString,
            Call::ArrayText { string: replies[1]->String_0, array },
            Call::StringData { string: replies[2]->String_0 },
            Call::FreeString { string: replies[2]->String_0 },
        ],
        DescribePlan::Version => seq![
            Call::NewString,
            Call::Version { string: replies[0]->String_0 },
            Call::StringData { string: replies[1]->String_0 },
            Call::FreeString { string: replies[1]->String_0 },
        ],
    }
}

/// Where in the replies the characters come.
pub open spec fn text_place(plan: DescribePlan) -> int {
    match plan {
        DescribePlan::Array { .. } => 3,
        DescribePlan::Version => 2,
    }
}

enum Stage {
    Install,
    New,
    Write { string: RawString },
    Data { string: RawString },
    Free { string: RawString, text: String },
}

/// Gets a text that MLX writes.
pub struct DescribeTask<'a, T> {
    plan: DescribePlan,
    stage: Stage,
    replies: Ghost<Seq<Reply<T>>>,
    bound: PhantomData<&'a Array>,
}

impl<'a, T> DescribeTask<'a, T> {
    #[verifier::type_invariant]
    spec fn well_formed(self) -> bool {
        let replies = self.replies@;
        let place = text_place(self.plan);
        match self.stage {
            Stage::Install => self.plan is Array && replies.len() == 0,
            Stage::New => replies.len() == place - 2,
            Stage::Write { string } => {
                replies.len() == place - 1 && replies[place - 2]->String_0 == string
            },
            Stage::Data { string } => {
                replies.len() == place && replies[place - 1]->String_0 == string
            },
            Stage::Free { string, text } => {
                &&& replies.len() == place + 1
                &&& replies[place - 1]->String_0 == string
                &&& replies[place]->Text_0@ == text@
            },
        }
    }
}

impl<'a, T: Copy> DescribeTask<'a, T> {
    /// A task that gets the text of this plan.
    pub(crate) fn new(plan: DescribePlan) -> (task: Self)
        ensures
            task.plan() == plan,
            task.replies() == Seq::<Reply<T>>::empty(),
    {
        match plan {
            DescribePlan::Array { .. } => {
                DescribeTask {
                    plan,
                    stage: Stage::Install,
                    replies: Ghost(Seq::empty()),
                    bound: PhantomData,
                }
            },
            DescribePlan::Version => {
                DescribeTask {
                    plan,
                    stage: Stage::New,
                    replies: Ghost(Seq::empty()),
                    bound: PhantomData,
                }
            },
        }
    }
}

impl<'a, T: Copy> Task<'a, T> for DescribeTask<'a, T> {
    type Plan = DescribePlan;

    type Output = String;

    closed spec fn plan(&self) -> DescribePlan {
        self.plan
    }

    closed spec fn replies(&self) -> Seq<Reply<T>> {
        self.replies@
    }

    open spec fn calls(plan: DescribePlan, replies: Seq<Reply<T>>) -> Seq<Call<'a, T>> {
        describe_calls(plan, replies)
    }

    open spec fn gives(plan: DescribePlan, replies: Seq<Reply<T>>, output: String) -> bool {
        output@ == replies[text_place(plan)]->Text_0@
    }

    proof fn calls_are_causal(plan: DescribePlan, a: Seq<Reply<T>>, b: Seq<Reply<T>>, n: int) {
        assert(n > 0 ==> a[0] == b[0]);
        assert(n > 1 ==> a[1] == b[1]);
        assert(n > 2 ==> a[2] == b[2]);
    }

    fn call(&self) -> (call: Call<'a, T>) {
        proof {
            use_type_invariant(self);
        }
        match &self.stage {
            Stage::Install => Call::Install,
            Stage::New => Call::NewString,
            Stage::Write { string } => match self.plan {
                DescribePlan::Array { array } => Call::ArrayText { string: *string, array },
                DescribePlan::Version => Call::Version { string: *string },
            },
            Stage::Data { string } => Call::StringData { string: *string },
            Stage::Free { string, .. } => Call::FreeString { string: *string },
        }
    }

    fn resume(self, reply: Reply<T>) -> (step: Step<Self, String>) {
        proof {
            use_type_invariant(&self);
        }
        let plan = self.plan;
        let replies: Ghost<Seq<Reply<T>>> = Ghost(self.replies@.push(reply));
        match (self.stage, reply) {
            (Stage::Install, _) => Step::More(
                DescribeTask { plan, stage: Stage::New, replies, bound: PhantomData },
            ),
            (Stage::New, Reply::String(string)) => {
                Step::More(
                    DescribeTask {
                        plan,
                        stage: Stage::Write { string },
                        replies,
                        bound: PhantomData,
                    },
                )
            },
            (Stage::Write { .. }, Reply::String(string)) => {
                Step::More(
                    DescribeTask {
                        plan,
                        stage: Stage::Data { string },
                        replies,
                        bound: PhantomData,
                    },
                )
            },
            (Stage::Data { string }, Reply::Text(text)) => {
                Step::More(
                    DescribeTask {
                        plan,
                        stage: Stage::Free { string, text },
                        replies,
                        bound: PhantomData,
                    },
                )
            },
            (Stage::Free { text, .. }, _) => Step::Done(text),
            _ => vstd::pervasive::unreached(),
        }
    }
}

} // verus!
