//! Reading the value of a single-element array.

use std::marker::PhantomData;

use vstd::prelude::*;
use vstd::string::*;

use crate::array::Array;
use crate::call::{Call, RawArray, Reply};
use crate::task::{Step, Task};
use crate::text::{append_decimal, decimal};

verus! {

/// The array has not exactly one element, but `size`.
#[derive(Clone, Copy, PartialEq, Eq, Structural, Debug)]
pub struct NotScalar {
    pub size: usize,
}

impl NotScalar {
    /// What the error prints.
    pub open spec fn text(&self) -> Seq<char> {
        "item() requires a single-element array, but this array has "@ + decimal(self.size as nat)
            + " elements"@
    }

    /// The error as it is shown to people.
    pub fn describe(&self) -> (text: String)
        ensures
            text@ == self.text(),
    {
        let mut text = String::from_str(
            "item() requires a single-element array, but this array has ",
        );
        append_decimal(&mut text, self.size as u64);
        text.append(" elements");
        text
    }
}

/// The calls that read the value of an array. The accessor is used on an evaluated array of
/// exactly one element only.
pub open spec fn item_calls<'a, T>(array: RawArray, replies: Seq<Reply<T>>) -> Seq<Call<'a, T>> {
    seq![Call::Install, Call::Eval { array }, Call::Size { array }] + if replies[2]->Count_0 == 1 {
        seq![Call::Item { array }]
    } else {
        seq![]
    }
}

enum Stage {
    Install,
    Eval,
    Size,
    Item,
}

/// Reads the value of a single-element array.
pub struct ItemTask<'a, T> {
    array: RawArray,
    stage: Stage,
    replies: Ghost<Seq<Reply<T>>>,
    bound: PhantomData<&'a Array>,
}

impl<'a, T> ItemTask<'a, T> {
    #[verifier::type_invariant]
    spec fn well_formed(self) -> bool {
        let replies = self.replies@;
        match self.stage {
            Stage::Install => replies.len() == 0,
            Stage::Eval => replies.len() == 1,
            Stage::Size => replies.len() == 2,
            Stage::Item => replies.len() == 3 && replies[2]->Count_0 == 1,
        }
    }
}

impl<'a, T: Copy> ItemTask<'a, T> {
    /// A task that reads the value of `array`.
    pub(crate) fn new(array: RawArray) -> (task: Self)
        ensures
            task.plan() == array,
            task.replies() == Seq::<Reply<T>>::empty(),
    {
        ItemTask { array, stage: Stage::Install, replies: Ghost(Seq::empty()), bound: PhantomData }
    }
}

impl<'a, T: Copy> Task<'a, T> for ItemTask<'a, T> {
    type Plan = RawArray;

    type Output = Result<T, NotScalar>;

    closed spec fn plan(&self) -> RawArray {
        self.array
    }

    closed spec fn replies(&self) -> Seq<Reply<T>> {
        self.replies@
    }

    open spec fn calls(plan: RawArray, replies: Seq<Reply<T>>) -> Seq<Call<'a, T>> {
        item_calls(plan, replies)
    }

    open spec fn gives(
        plan: RawArray,
        replies: Seq<Reply<T>>,
        output: Result<T, NotScalar>,
    ) -> bool {
        match output {
            Ok(value) => replies[2]->Count_0 == 1 && value == replies[3]->Item_0,
            Err(error) => replies[2]->Count_0 != 1 && error.size == replies[2]->Count_0,
        }
    }

    proof fn calls_are_causal(plan: RawArray, a: Seq<Reply<T>>, b: Seq<Reply<T>>, n: int) {
        assert(n > 2 ==> a[2] == b[2]);
    }

    fn call(&self) -> (call: Call<'a, T>) {
        proof {
            use_type_invariant(self);
        }
        let array = self.array;
        match &self.stage {
            Stage::Install => Call::Install,
            Stage::Eval => Call::Eval { array },
            Stage::Size => Call::Size { array },
            Stage::Item => Call::Item { array },
        }
    }

    fn resume(self, reply: Reply<T>) -> (step: Step<Self, Result<T, NotScalar>>) {
        proof {
            use_type_invariant(&self);
        }
        let array = self.array;
        let replies: Ghost<Seq<Reply<T>>> = Ghost(self.replies@.push(reply));
        match (self.stage, reply) {
            (Stage::Install, _) => Step::More(
                ItemTask { array, stage: Stage::Eval, replies, bound: PhantomData },
            ),
            (Stage::Eval, _) => Step::More(
                ItemTask { array, stage: Stage::Size, replies, bound: PhantomData },
            ),
            (Stage::Size, Reply::Count(size)) => {
                if size == 1 {
                    Step::More(ItemTask { array, stage: Stage::Item, replies, bound: PhantomData })
                } else {
                    Step::Done(Err(NotScalar { size }))
                }
            },
            (Stage::Item, Reply::Item(value)) => Step::Done(Ok(value)),
            _ => vstd::pervasive::unreached(),
        }
    }
}

} // verus!
