//! Building arrays from values.

use std::marker::PhantomData;

use vstd::prelude::*;

use crate::array::Array;
use crate::call::{as_ffi_list, ffi_list, Call, Reply};
use crate::dtype::Dtype;
use crate::shape::{check_len, product, product_fits, ShapeError};
use crate::task::{Step, Task};

verus! {

/// The values to build an array from.
#[derive(Debug)]
pub enum BuildPlan<'a, T> {
    /// The values of a slice, in row-major order.
    Slice { data: &'a [T], dtype: Dtype, shape: &'a [i32] },
    /// One value, for an array without dimensions.
    Scalar { value: T, dtype: Dtype },
}

/// The values fill the shape exactly, and its dimensions can be counted in the `i32` that the C
/// interface takes.
pub open spec fn fills<T>(plan: BuildPlan<T>) -> bool {
    match plan {
        BuildPlan::Slice { data, shape, .. } => {
            &&& product_fits(shape@)
            &&& product(shape@) == data@.len()
            &&& shape@.len() <= i32::MAX
        },
        BuildPlan::Scalar { .. } => true,
    }
}

/// The calls that build an array.
pub open spec fn build_calls<'a, T>(plan: BuildPlan<'a, T>) -> Seq<Call<'a, T>> {
    seq![
        Call::Install,
        match plan {
            BuildPlan::Slice { data, dtype, shape } => Call::NewData {
                data: ffi_list(data),
                shape: ffi_list(shape),
                dim: shape@.len() as i32,
                dtype: dtype.code(),
            },
            BuildPlan::Scalar { value, dtype } => Call::NewScalar { value, dtype: dtype.code() },
        },
    ]
}

enum Stage {
    Install,
    New,
}

/// Builds an array from values.
pub struct BuildTask<'a, T> {
    plan: BuildPlan<'a, T>,
    stage: Stage,
    replies: Ghost<Seq<Reply<T>>>,
    bound: PhantomData<&'a Array>,
}

impl<'a, T> BuildTask<'a, T> {
    #[verifier::type_invariant]
    spec fn well_formed(self) -> bool {
        &&& fills(self.plan)
        &&& match self.stage {
            Stage::Install => self.replies@.len() == 0,
            Stage::New => self.replies@.len() == 1,
        }
    }
}

impl<'a, T: Copy> BuildTask<'a, T> {
    /// A task that builds an array of `shape` from the values of `data`, unless they do not fill
    /// it.
    pub(crate) fn from_slice(data: &'a [T], dtype: Dtype, shape: &'a [i32]) -> (result: Result<
        Self,
        ShapeError,
    >)
        requires
            shape@.len() <= i32::MAX,
        ensures
            match result {
                Ok(task) => {
                    &&& product_fits(shape@)
                    &&& product(shape@) == data@.len()
                    &&& task.plan() == (BuildPlan::Slice { data, dtype, shape })
                    &&& task.replies() == Seq::<Reply<T>>::empty()
                },
                Err(ShapeError::Mismatch { len, product: p }) => {
                    &&& product_fits(shape@)
                    &&& product(shape@) != data@.len()
                    &&& len == data@.len()
                    &&& p == product(shape@)
                },
                Err(ShapeError::Overflow) => !product_fits(shape@),
            },
    {
        match check_len(data.len(), shape) {
            Ok(_) => {
                let plan = BuildPlan::Slice { data, dtype, shape };
                Ok(BuildTask {
                    plan,
                    stage: Stage::Install,
                    replies: Ghost(Seq::empty()),
                    bound: PhantomData,
                })
            },
            Err(error) => Err(error),
        }
    }

    /// A task that builds an array without dimensions from one value.
    pub(crate) fn from_scalar(value: T, dtype: Dtype) -> (task: Self)
        ensures
            task.plan() == (BuildPlan::Scalar { value, dtype }),
            task.replies() == Seq::<Reply<T>>::empty(),
    {
        let plan = BuildPlan::Scalar { value, dtype };
        BuildTask { plan, stage: Stage::Install, replies: Ghost(Seq::empty()), bound: PhantomData }
    }
}

impl<'a, T: Copy> Task<'a, T> for BuildTask<'a, T> {
    type Plan = BuildPlan<'a, T>;

    type Output = Array;

    closed spec fn plan(&self) -> BuildPlan<'a, T> {
        self.plan
    }

    closed spec fn replies(&self) -> Seq<Reply<T>> {
        self.replies@
    }

    open spec fn calls(plan: BuildPlan<'a, T>, replies: Seq<Reply<T>>) -> Seq<Call<'a, T>> {
        build_calls(plan)
    }

    open spec fn gives(plan: BuildPlan<'a, T>, replies: Seq<Reply<T>>, output: Array) -> bool {
        output.raw() == replies[1]->Array_0
    }

    proof fn calls_are_causal(
        plan: BuildPlan<'a, T>,
        a: Seq<Reply<T>>,
        b: Seq<Reply<T>>,
        n: int,
    ) {
    }

    fn call(&self) -> (call: Call<'a, T>) {
        proof {
            use_type_invariant(self);
        }
        match &self.stage {
            Stage::Install => Call::Install,
            Stage::New => match &self.plan {
                BuildPlan::Slice { data, dtype, shape } => Call::NewData {
                    data: as_ffi_list(*data),
                    shape: as_ffi_list(*shape),
                    dim: shape.len() as i32,
                    dtype: dtype.as_raw(),
                },
                BuildPlan::Scalar { value, dtype } => {
                    Call::NewScalar { value: *value, dtype: dtype.as_raw() }
                },
            },
        }
    }

    fn resume(self, reply: Reply<T>) -> (step: Step<Self, Array>) {
        proof {
            use_type_invariant(&self);
        }
        let replies: Ghost<Seq<Reply<T>>> = Ghost(self.replies@.push(reply));
        match (self.stage, reply) {
            (Stage::Install, _) => {
                Step::More(
                    BuildTask { plan: self.plan, stage: Stage::New, replies, bound: PhantomData },
                )
            },
            (Stage::New, Reply::Array(array)) => Step::Done(Array::from_raw(array)),
            _ => vstd::pervasive::unreached(),
        }
    }
}

} // verus!
