//! Asking for the properties of an array.

use std::marker::PhantomData;

use vstd::prelude::*;

use crate::array::Array;
use crate::call::{Call, RawArray, Reply};
use crate::dtype::Dtype;
use crate::layout::{is_row_contiguous, row_contiguous};
use crate::shape::valid_shape;
use crate::task::{Step, Task};

verus! {

/// Which number of an array to ask for.
#[derive(Clone, Copy, PartialEq, Eq, Structural, Debug)]
pub enum CountPlan {
    /// The number of elements.
    Size { array: RawArray },
    /// The number of dimensions.
    Ndim { array: RawArray },
}

/// Asks for a number of an array.
pub struct CountTask<'a, T> {
    plan: CountPlan,
    replies: Ghost<Seq<Reply<T>>>,
    bound: PhantomData<&'a Array>,
}

impl<'a, T> CountTask<'a, T> {
    #[verifier::type_invariant]
    spec fn well_formed(self) -> bool {
        self.replies@.len() == 0
    }
}

impl<'a, T: Copy> CountTask<'a, T> {
    /// A task that asks for the number of this plan.
    pub(crate) fn new(plan: CountPlan) -> (task: Self)
        ensures
            task.plan() == plan,
            task.replies() == Seq::<Reply<T>>::empty(),
    {
        CountTask { plan, replies: Ghost(Seq::empty()), bound: PhantomData }
    }
}

impl<'a, T: Copy> Task<'a, T> for CountTask<'a, T> {
    type Plan = CountPlan;

    type Output = usize;

    closed spec fn plan(&self) -> CountPlan {
        self.plan
    }

    closed spec fn replies(&self) -> Seq<Reply<T>> {
        self.replies@
    }

    open spec fn calls(plan: CountPlan, replies: Seq<Reply<T>>) -> Seq<Call<'a, T>> {
        match plan {
            CountPlan::Size { array } => seq![Call::Size { array }],
            CountPlan::Ndim { array } => seq![Call::Ndim { array }],
        }
    }

    open spec fn gives(plan: CountPlan, replies: Seq<Reply<T>>, output: usize) -> bool {
        output == replies[0]->Count_0
    }

    proof fn calls_are_causal(plan: CountPlan, a: Seq<Reply<T>>, b: Seq<Reply<T>>, n: int) {
    }

    fn call(&self) -> (call: Call<'a, T>) {
        proof {
            use_type_invariant(self);
        }
        match self.plan {
            CountPlan::Size { array } => Call::Size { array },
            CountPlan::Ndim { array } => Call::Ndim { array },
        }
    }

    fn resume(self, reply: Reply<T>) -> (step: Step<Self, usize>) {
        proof {
            use_type_invariant(&self);
        }
        match reply {
            Reply::Count(count) => Step::Done(count),
            _ => vstd::pervasive::unreached(),
        }
    }
}

/// Asks for the element type of an array.
pub struct DtypeTask<'a, T> {
    array: RawArray,
    replies: Ghost<Seq<Reply<T>>>,
    bound: PhantomData<&'a Array>,
}

impl<'a, T> DtypeTask<'a, T> {
    #[verifier::type_invariant]
    spec fn well_formed(self) -> bool {
        self.replies@.len() == 0
    }
}

impl<'a, T: Copy> DtypeTask<'a, T> {
    /// A task that asks for the element type of `array`.
    pub(crate) fn new(array: RawArray) -> (task: Self)
        ensures
            task.plan() == array,
            task.replies() == Seq::<Reply<T>>::empty(),
    {
        DtypeTask { array, replies: Ghost(Seq::empty()), bound: PhantomData }
    }
}

impl<'a, T: Copy> Task<'a, T> for DtypeTask<'a, T> {
    type Plan = RawArray;

    type Output = Dtype;

    closed spec fn plan(&self) -> RawArray {
        self.array
    }

    closed spec fn replies(&self) -> Seq<Reply<T>> {
        self.replies@
    }

    open spec fn calls(plan: RawArray, replies: Seq<Reply<T>>) -> Seq<Call<'a, T>> {
        seq![Call::Dtype { array: plan }]
    }

    open spec fn gives(plan: RawArray, replies: Seq<Reply<T>>, output: Dtype) -> bool {
        output.code() == replies[0]->Code_0
    }

    proof fn calls_are_causal(plan: RawArray, a: Seq<Reply<T>>, b: Seq<Reply<T>>, n: int) {
    }

    fn call(&self) -> (call: Call<'a, T>) {
        proof {
            use_type_invariant(self);
        }
        Call::Dtype { array: self.array }
    }

    fn resume(self, reply: Reply<T>) -> (step: Step<Self, Dtype>) {
        proof {
            use_type_invariant(&self);
        }
        match reply {
            Reply::Code(code) => Step::Done(Dtype::from_raw(code)),
            _ => vstd::pervasive::unreached(),
        }
    }
}

enum Stage {
    Ndim,
    List { ndim: usize },
}

/// Asks for the dimensions of an array.
pub struct ShapeTask<'a, T> {
    array: RawArray,
    stage: Stage,
    replies: Ghost<Seq<Reply<T>>>,
    bound: PhantomData<&'a Array>,
}

impl<'a, T> ShapeTask<'a, T> {
    #[verifier::type_invariant]
    spec fn well_formed(self) -> bool {
        let replies = self.replies@;
        match self.stage {
            Stage::Ndim => replies.len() == 0,
            Stage::List { ndim } => replies.len() == 1 && replies[0]->Count_0 == ndim,
        }
    }
}

impl<'a, T: Copy> ShapeTask<'a, T> {
    /// A task that asks for the dimensions of `array`.
    pub(crate) fn new(array: RawArray) -> (task: Self)
        ensures
            task.plan() == array,
            task.replies() == Seq::<Reply<T>>::empty(),
    {
        ShapeTask { array, stage: Stage::Ndim, replies: Ghost(Seq::empty()), bound: PhantomData }
    }
}

impl<'a, T: Copy> Task<'a, T> for ShapeTask<'a, T> {
    type Plan = RawArray;

    type Output = Vec<i32>;

    closed spec fn plan(&self) -> RawArray {
        self.array
    }

    closed spec fn replies(&self) -> Seq<Reply<T>> {
        self.replies@
    }

    open spec fn calls(plan: RawArray, replies: Seq<Reply<T>>) -> Seq<Call<'a, T>> {
        seq![
            Call::Ndim { array: plan },
            Call::Shape { array: plan, ndim: replies[0]->Count_0 },
        ]
    }

    open spec fn gives(plan: RawArray, replies: Seq<Reply<T>>, output: Vec<i32>) -> bool {
        output@ == replies[1]->Dims_0@
    }

    proof fn calls_are_causal(plan: RawArray, a: Seq<Reply<T>>, b: Seq<Reply<T>>, n: int) {
        assert(n > 0 ==> a[0] == b[0]);
    }

    fn call(&self) -> (call: Call<'a, T>) {
        proof {
            use_type_invariant(self);
        }
        match &self.stage {
            Stage::Ndim => Call::Ndim { array: self.array },
            Stage::List { ndim } => Call::Shape { array: self.array, ndim: *ndim },
        }
    }

    fn resume(self, reply: Reply<T>) -> (step: Step<Self, Vec<i32>>) {
        proof {
            use_type_invariant(&self);
        }
        let array = self.array;
        let replies: Ghost<Seq<Reply<T>>> = Ghost(self.replies@.push(reply));
        match (self.stage, reply) {
            (Stage::Ndim, Reply::Count(ndim)) => {
                Step::More(
                    ShapeTask { array, stage: Stage::List { ndim }, replies, bound: PhantomData },
                )
            },
            (Stage::List { .. }, Reply::Dims(dims)) => Step::Done(dims),
            _ => vstd::pervasive::unreached(),
        }
    }
}

/// Asks for the strides of an array.
pub struct StridesTask<'a, T> {
    array: RawArray,
    stage: Stage,
    replies: Ghost<Seq<Reply<T>>>,
    bound: PhantomData<&'a Array>,
}

impl<'a, T> StridesTask<'a, T> {
    #[verifier::type_invariant]
    spec fn well_formed(self) -> bool {
        let replies = self.replies@;
        match self.stage {
            Stage::Ndim => replies.len() == 0,
            Stage::List { ndim } => replies.len() == 1 && replies[0]->Count_0 == ndim,
        }
    }
}

impl<'a, T: Copy> StridesTask<'a, T> {
    /// A task that asks for the strides of `array`.
    pub(crate) fn new(array: RawArray) -> (task: Self)
        ensures
            task.plan() == array,
            task.replies() == Seq::<Reply<T>>::empty(),
    {
        StridesTask { array, stage: Stage::Ndim, replies: Ghost(Seq::empty()), bound: PhantomData }
    }
}

impl<'a, T: Copy> Task<'a, T> for StridesTask<'a, T> {
    type Plan = RawArray;

    type Output = Vec<usize>;

    closed spec fn plan(&self) -> RawArray {
        self.array
    }

    closed spec fn replies(&self) -> Seq<Reply<T>> {
        self.replies@
    }

    open spec fn calls(plan: RawArray, replies: Seq<Reply<T>>) -> Seq<Call<'a, T>> {
        seq![
            Call::Ndim { array: plan },
            Call::Strides { array: plan, ndim: replies[0]->Count_0 },
        ]
    }

    open spec fn gives(plan: RawArray, replies: Seq<Reply<T>>, output: Vec<usize>) -> bool {
        output@ == replies[1]->Strides_0@
    }

    proof fn calls_are_causal(plan: RawArray, a: Seq<Reply<T>>, b: Seq<Reply<T>>, n: int) {
        assert(n > 0 ==> a[0] == b[0]);
    }

    fn call(&self) -> (call: Call<'a, T>) {
        proof {
            use_type_invariant(self);
        }
        match &self.stage {
            Stage::Ndim => Call::Ndim { array: self.array },
            Stage::List { ndim } => Call::Strides { array: self.array, ndim: *ndim },
        }
    }

    fn resume(self, reply: Reply<T>) -> (step: Step<Self, Vec<usize>>) {
        proof {
            use_type_invariant(&self);
        }
        let array = self.array;
        let replies: Ghost<Seq<Reply<T>>> = Ghost(self.replies@.push(reply));
        match (self.stage, reply) {
            (Stage::Ndim, Reply::Count(ndim)) => {
                Step::More(
                    StridesTask { array, stage: Stage::List { ndim }, replies, bound: PhantomData },
                )
            },
            (Stage::List { .. }, Reply::Strides(strides)) => Step::Done(strides),
            _ => vstd::pervasive::unreached(),
        }
    }
}

enum EvalStage {
    Install,
    Eval,
}

/// Forces the evaluation of an array.
pub struct EvalTask<'a, T> {
    array: RawArray,
    stage: EvalStage,
    replies: Ghost<Seq<Reply<T>>>,
    bound: PhantomData<&'a Array>,
}

impl<'a, T> EvalTask<'a, T> {
    #[verifier::type_invariant]
    spec fn well_formed(self) -> bool {
        match self.stage {
            EvalStage::Install => self.replies@.len() == 0,
            EvalStage::Eval => self.replies@.len() == 1,
        }
    }
}

impl<'a, T: Copy> EvalTask<'a, T> {
    /// A task that forces the evaluation of `array`.
    pub(crate) fn new(array: RawArray) -> (task: Self)
        ensures
            task.plan() == array,
            task.replies() == Seq::<Reply<T>>::empty(),
    {
        EvalTask {
            array,
            stage: EvalStage::Install,
            replies: Ghost(Seq::empty()),
            bound: PhantomData,
        }
    }
}

impl<'a, T: Copy> Task<'a, T> for EvalTask<'a, T> {
    type Plan = RawArray;

    type Output = ();

    closed spec fn plan(&self) -> RawArray {
        self.array
    }

    closed spec fn replies(&self) -> Seq<Reply<T>> {
        self.replies@
    }

    open spec fn calls(plan: RawArray, replies: Seq<Reply<T>>) -> Seq<Call<'a, T>> {
        seq![Call::Install, Call::Eval { array: plan }]
    }

    open spec fn gives(plan: RawArray, replies: Seq<Reply<T>>, output: ()) -> bool {
        true
    }

    proof fn calls_are_causal(plan: RawArray, a: Seq<Reply<T>>, b: Seq<Reply<T>>, n: int) {
    }

    fn call(&self) -> (call: Call<'a, T>) {
        proof {
            use_type_invariant(self);
        }
        match &self.stage {
            EvalStage::Install => Call::Install,
            EvalStage::Eval => Call::Eval { array: self.array },
        }
    }

    fn resume(self, reply: Reply<T>) -> (step: Step<Self, ()>) {
        proof {
            use_type_invariant(&self);
        }
        let array = self.array;
        let replies: Ghost<Seq<Reply<T>>> = Ghost(self.replies@.push(reply));
        match self.stage {
            EvalStage::Install => {
                Step::More(EvalTask { array, stage: EvalStage::Eval, replies, bound: PhantomData })
            },
            EvalStage::Eval => Step::Done(()),
        }
    }
}

/// The calls that ask for the layout of an array.
pub open spec fn layout_calls<'a, T>(array: RawArray, replies: Seq<Reply<T>>) -> Seq<Call<'a, T>> {
    seq![
        Call::Ndim { array },
        Call::Shape { array, ndim: replies[0]->Count_0 },
        Call::Strides { array, ndim: replies[0]->Count_0 },
    ]
}

enum LayoutStage {
    Ndim,
    Shape { ndim: usize },
    Strides { shape: Vec<i32> },
}

/// Asks whether an array is laid out row-major (C-order) contiguously.
pub struct LayoutTask<'a, T> {
    array: RawArray,
    stage: LayoutStage,
    replies: Ghost<Seq<Reply<T>>>,
    bound: PhantomData<&'a Array>,
}

impl<'a, T> LayoutTask<'a, T> {
    #[verifier::type_invariant]
    spec fn well_formed(self) -> bool {
        let replies = self.replies@;
        match self.stage {
            LayoutStage::Ndim => replies.len() == 0,
            LayoutStage::Shape { ndim } => replies.len() == 1 && replies[0]->Count_0 == ndim,
            LayoutStage::Strides { shape } => {
                &&& replies.len() == 2
                &&& replies[1]->Dims_0 == shape
                &&& shape@.len() == replies[0]->Count_0
                &&& valid_shape(shape@)
            },
        }
    }
}

impl<'a, T: Copy> LayoutTask<'a, T> {
    /// A task that asks for the layout of `array`.
    pub(crate) fn new(array: RawArray) -> (task: Self)
        ensures
            task.plan() == array,
            task.replies() == Seq::<Reply<T>>::empty(),
    {
        LayoutTask {
            array,
            stage: LayoutStage::Ndim,
            replies: Ghost(Seq::empty()),
            bound: PhantomData,
        }
    }
}

impl<'a, T: Copy> Task<'a, T> for LayoutTask<'a, T> {
    type Plan = RawArray;

    type Output = bool;

    closed spec fn plan(&self) -> RawArray {
        self.array
    }

    closed spec fn replies(&self) -> Seq<Reply<T>> {
        self.replies@
    }

    open spec fn calls(plan: RawArray, replies: Seq<Reply<T>>) -> Seq<Call<'a, T>> {
        layout_calls(plan, replies)
    }

    open spec fn gives(plan: RawArray, replies: Seq<Reply<T>>, output: bool) -> bool {
        output == row_contiguous(replies[1]->Dims_0@, replies[2]->Strides_0@)
    }

    proof fn calls_are_causal(plan: RawArray, a: Seq<Reply<T>>, b: Seq<Reply<T>>, n: int) {
        assert(n > 0 ==> a[0] == b[0]);
    }

    fn call(&self) -> (call: Call<'a, T>) {
        proof {
            use_type_invariant(self);
        }
        let array = self.array;
        match &self.stage {
            LayoutStage::Ndim => Call::Ndim { array },
            LayoutStage::Shape { ndim } => Call::Shape { array, ndim: *ndim },
            LayoutStage::Strides { shape } => Call::Strides { array, ndim: shape.len() },
        }
    }

    fn resume(self, reply: Reply<T>) -> (step: Step<Self, bool>) {
        proof {
            use_type_invariant(&self);
        }
        let array = self.array;
        let replies: Ghost<Seq<Reply<T>>> = Ghost(self.replies@.push(reply));
        match (self.stage, reply) {
            (LayoutStage::Ndim, Reply::Count(ndim)) => {
                Step::More(
                    LayoutTask {
                        array,
                        stage: LayoutStage::Shape { ndim },
                        replies,
                        bound: PhantomData,
                    },
                )
            },
            (LayoutStage::Shape { .. }, Reply::Dims(shape)) => {
                Step::More(
                    LayoutTask {
                        array,
                        stage: LayoutStage::Strides { shape },
                        replies,
                        bound: PhantomData,
                    },
                )
            },
            (LayoutStage::Strides { shape }, Reply::Strides(strides)) => {
                Step::Done(is_row_contiguous(shape.as_slice(), strides.as_slice()))
            },
            _ => vstd::pervasive::unreached(),
        }
    }
}

} // verus!
