//! What an array reports of itself.

use vstd::prelude::*;

use crate::array::Array;
use crate::call::{Call, RawArray, Reply};
use crate::construct::{BuildPlan, BuildTask};
use crate::dtype::{codes_are_distinct, Dtype};
use crate::memory::{acts, building_stores_the_values, lemma_steps, run, steps, Memory};
use crate::query::{layout_calls, CountPlan, CountTask, DtypeTask, LayoutTask, ShapeTask};
use crate::shape::product;
use crate::task::Task;
use crate::typed::{complete, queries_carry_no_elements, typed, typed_calls};
use crate::values::stays;

verus! {

/// The element type that an array reports is the one that MLX keeps of it. Asking changes nothing.
pub proof fn the_kept_element_type_is_reported<'a, T: Copy + 'a>(
    array: RawArray,
    replies: Seq<Reply<()>>,
    output: Dtype,
    states: Seq<Memory<T>>,
)
    requires
        complete::<(), DtypeTask<'a, ()>>(array, replies),
        <DtypeTask<'a, ()> as Task<'a, ()>>::gives(array, replies, output),
        run(
            typed_calls::<T>(<DtypeTask<'a, ()> as Task<'a, ()>>::calls(array, replies)),
            typed(replies),
            states,
        ),
        states[0].arrays.contains_key(array),
    ensures
        output.code() == states[0].arrays[array].dtype,
        states.last() == states[0],
{
    queries_carry_no_elements::<T>(array, CountPlan::Size { array }, replies);
    let untyped = <DtypeTask<'a, ()> as Task<'a, ()>>::calls(array, replies);
    assert(untyped[0] is Dtype && replies[0] is Code);
    let calls = <DtypeTask<'a, T> as Task<'a, T>>::calls(array, typed(replies));
    assert(acts(calls[0], typed(replies)[0], states[0], states[1]));
}

/// The number of elements and the number of dimensions that an array reports are those that MLX
/// keeps of it. Asking changes nothing.
pub proof fn the_kept_counts_are_reported<'a, T: Copy + 'a>(
    plan: CountPlan,
    replies: Seq<Reply<()>>,
    output: usize,
    states: Seq<Memory<T>>,
)
    requires
        complete::<(), CountTask<'a, ()>>(plan, replies),
        <CountTask<'a, ()> as Task<'a, ()>>::gives(plan, replies, output),
        run(
            typed_calls::<T>(<CountTask<'a, ()> as Task<'a, ()>>::calls(plan, replies)),
            typed(replies),
            states,
        ),
        match plan {
            CountPlan::Size { array } | CountPlan::Ndim { array } => {
                states[0].arrays.contains_key(array)
            },
        },
    ensures
        match plan {
            CountPlan::Size { array } => output == states[0].arrays[array].elements.len(),
            CountPlan::Ndim { array } => output == states[0].arrays[array].shape.len(),
        },
        states.last() == states[0],
{
    queries_carry_no_elements::<T>(RawArray { ctx: 0 }, plan, replies);
    let untyped = <CountTask<'a, ()> as Task<'a, ()>>::calls(plan, replies);
    assert(untyped[0] is Size || untyped[0] is Ndim);
    assert(replies[0] is Count);
    let calls = <CountTask<'a, T> as Task<'a, T>>::calls(plan, typed(replies));
    assert(acts(calls[0], typed(replies)[0], states[0], states[1]));
}

/// The dimensions that an array reports are those that MLX keeps of it, all of them. Asking changes
/// nothing.
pub proof fn the_kept_dimensions_are_reported<'a, T: Copy + 'a>(
    array: RawArray,
    replies: Seq<Reply<()>>,
    output: Vec<i32>,
    states: Seq<Memory<T>>,
)
    requires
        complete::<(), ShapeTask<'a, ()>>(array, replies),
        <ShapeTask<'a, ()> as Task<'a, ()>>::gives(array, replies, output),
        run(
            typed_calls::<T>(<ShapeTask<'a, ()> as Task<'a, ()>>::calls(array, replies)),
            typed(replies),
            states,
        ),
        states[0].arrays.contains_key(array),
    ensures
        output@ == states[0].arrays[array].shape,
        states.last() == states[0],
{
    queries_carry_no_elements::<T>(array, CountPlan::Size { array }, replies);
    let untyped = <ShapeTask<'a, ()> as Task<'a, ()>>::calls(array, replies);
    assert(untyped[0] is Ndim && replies[0] is Count);
    assert(untyped[1] is Shape && replies[1] is Dims);
    let calls = <ShapeTask<'a, T> as Task<'a, T>>::calls(array, typed(replies));
    lemma_steps(calls, typed(replies), states, 2);
    reveal_with_fuel(steps, 3);
    states[0].arrays[array].lemma_lists_are_whole();
}

/// An evaluated array reports that it is laid out row-major contiguously if and only if the stride
/// of each of its axes that has not length one is the number of elements that the axes behind it
/// span. Asking changes nothing.
pub proof fn the_kept_layout_is_reported<'a, T: Copy + 'a>(
    array: RawArray,
    replies: Seq<Reply<()>>,
    output: bool,
    states: Seq<Memory<T>>,
)
    requires
        complete::<(), LayoutTask<'a, ()>>(array, replies),
        <LayoutTask<'a, ()> as Task<'a, ()>>::gives(array, replies, output),
        run(
            typed_calls::<T>(<LayoutTask<'a, ()> as Task<'a, ()>>::calls(array, replies)),
            typed(replies),
            states,
        ),
        states[0].arrays.contains_key(array),
        states[0].arrays[array].buffer is Some,
    ensures
        output <==> {
            let shape = states[0].arrays[array].shape;
            let strides = states[0].arrays[array].tensor().strides;
            forall|i: int|
                #![trigger strides[i]]
                0 <= i < shape.len() && shape[i] != 1 ==> strides[i] == product(shape.skip(i + 1))
        },
        states.last() == states[0],
{
    queries_carry_no_elements::<T>(array, CountPlan::Size { array }, replies);
    let untyped = <LayoutTask<'a, ()> as Task<'a, ()>>::calls(array, replies);
    assert(untyped[0] is Ndim && replies[0] is Count);
    assert(untyped[1] is Shape && replies[1] is Dims);
    assert(untyped[2] is Strides && replies[2] is Strides);
    let calls: Seq<Call<T>> = layout_calls(array, typed(replies));
    lemma_steps(calls, typed(replies), states, 3);
    reveal_with_fuel(steps, 4);
    let stored = states[0].arrays[array];
    assert(stored.valid(states[0].setting.element));
    stored.lemma_lists_are_whole();
}

/// An array that was built from a slice holds its values in order, and reports the type and the
/// dimensions that were given, as long as it stays.
pub proof fn what_was_built_is_reported<'a, T: Copy + 'a>(
    data: &'a [T],
    dtype: Dtype,
    shape: &'a [i32],
    replies: Seq<Reply<T>>,
    array: Array,
    states: Seq<Memory<T>>,
    types: (Seq<Reply<()>>, Dtype, Seq<Memory<T>>),
    dims: (Seq<Reply<()>>, Vec<i32>, Seq<Memory<T>>),
)
    requires
        <BuildTask<'a, T> as Task<'a, T>>::gives(
            BuildPlan::Slice { data, dtype, shape },
            replies,
            array,
        ),
        run(
            <BuildTask<'a, T> as Task<'a, T>>::calls(
                BuildPlan::Slice { data, dtype, shape },
                replies,
            ),
            replies,
            states,
        ),
        states[0].setting.element == dtype.code(),
        complete::<(), DtypeTask<'a, ()>>(array.raw(), types.0),
        <DtypeTask<'a, ()> as Task<'a, ()>>::gives(array.raw(), types.0, types.1),
        run(
            typed_calls::<T>(<DtypeTask<'a, ()> as Task<'a, ()>>::calls(array.raw(), types.0)),
            typed(types.0),
            types.2,
        ),
        stays(states.last(), types.2[0], array.raw()),
        complete::<(), ShapeTask<'a, ()>>(array.raw(), dims.0),
        <ShapeTask<'a, ()> as Task<'a, ()>>::gives(array.raw(), dims.0, dims.1),
        run(
            typed_calls::<T>(<ShapeTask<'a, ()> as Task<'a, ()>>::calls(array.raw(), dims.0)),
            typed(dims.0),
            dims.2,
        ),
        stays(states.last(), dims.2[0], array.raw()),
    ensures
        states.last().arrays[array.raw()].elements == data@,
        states.last().arrays[array.raw()].shape == shape@,
        types.1 == dtype,
        dims.1@ == shape@,
{
    building_stores_the_values(BuildPlan::Slice { data, dtype, shape }, replies, array, states);
    the_kept_element_type_is_reported::<T>(array.raw(), types.0, types.1, types.2);
    the_kept_dimensions_are_reported::<T>(array.raw(), dims.0, dims.1, dims.2);
    codes_are_distinct(types.1, dtype);
}

} // verus!
