//! What the elements that are read have to do with those that were written.
//!
//! The library holds no elements: MLX does. So what a read gives is stated against what MLX keeps
//! behind the handles, as far as its documentation says how the calls act on that. The functions
//! that the arithmetic operations compute may be any functions: only that each operation has its
//! own is said.

use vstd::prelude::*;

use crate::array::Array;
use crate::call::{
    ffi_list, BinaryOp, Call, FillOp, Op, RawArray, RawStream, ReduceOp, Reply, ShapeOp, UnaryOp,
};
use crate::construct::{build_calls, fills, BuildPlan, BuildTask};
use crate::copy::{copy_calls, copy_gives, copy_plan, ToVecError};
use crate::default_stream::{default_calls, on_default, replace_calls, DefaultPlan, DefaultTask};
use crate::dtype::Dtype;
use crate::error::Error;
use crate::extent::{are_axes, collapsed, joined, joins, multiplied, multiplies, reduced};
use crate::full::{full_calls, spread, FullPlan, FullTask};
use crate::item::{item_calls, ItemTask, NotScalar};
use crate::layout::{rank, row_contiguous, row_contiguous_storage_is_logical, unrank, Tensor};
use crate::op::{failed, op_calls, op_gives, OpPlan};
use crate::operator::{
    operator_calls, operator_gives, run_place, OperatorError, OperatorPlan,
};
use crate::ownership::reads;
use crate::read::{read_calls, read_gives, ReadPlan};
use crate::schedule::Device;
use crate::shape::{product, valid_shape};
use crate::stream::{stream_calls, StreamPlan};
use crate::task::{after, Task};
use crate::to_vec::{contiguous, eval_calls, to_vec_calls, to_vec_gives};

verus! {

/// The strides and the storage buffer that an array gets when it is evaluated.
pub struct Buffer<T> {
    pub strides: Seq<usize>,
    pub storage: Seq<T>,
}

/// What MLX keeps behind the handle of an array.
pub struct Stored<T> {
    /// The code of the element type.
    pub dtype: u32,
    pub shape: Seq<i32>,
    /// The elements in logical order, each converted to `T` as MLX casts.
    pub elements: Seq<T>,
    /// No element is a float out of the range of `T`, whose conversion is unspecified.
    pub in_range: bool,
    /// The elements are, or will be, stored in row-major order.
    pub dense: bool,
    /// `None` as long as the array is not evaluated.
    pub buffer: Option<Buffer<T>>,
}

impl<T> Stored<T> {
    /// The layout by which the elements are found in the storage buffer.
    pub open spec fn tensor(self) -> Tensor<T> {
        Tensor {
            shape: self.shape,
            strides: self.buffer->Some_0.strides,
            storage: self.buffer->Some_0.storage,
        }
    }

    /// The parts fit together. The storage buffer holds values of type `T` only if the element
    /// type is the one that `T` stands for, whose code is `element`.
    pub open spec fn valid(self, element: u32) -> bool {
        &&& valid_shape(self.shape)
        &&& self.elements.len() == product(self.shape)
        &&& self.dtype == element ==> self.in_range
        &&& self.buffer is Some ==> {
            &&& self.tensor().strides.len() == self.shape.len()
            &&& self.dense ==> row_contiguous(self.shape, self.tensor().strides)
            &&& self.dtype == element ==> self.tensor().valid() && self.tensor().logical()
                == self.elements
        }
    }

    /// Reading as many dimensions and strides as the array has axes gives them all.
    pub proof fn lemma_lists_are_whole(self)
        ensures
            self.shape.take(self.shape.len() as int) == self.shape,
            self.tensor().strides.take(self.tensor().strides.len() as int)
                == self.tensor().strides,
    {
        assert(self.shape.take(self.shape.len() as int) =~= self.shape);
        let strides = self.tensor().strides;
        assert(strides.take(strides.len() as int) =~= strides);
    }

    /// The same array, whether evaluated or not.
    pub open spec fn same(self, other: Stored<T>) -> bool {
        &&& self.dtype == other.dtype
        &&& self.shape == other.shape
        &&& self.elements == other.elements
        &&& self.in_range == other.in_range
        &&& self.dense == other.dense
    }
}

/// The functions that MLX computes, on elements of the type that `T` stands for. Where a result has
/// another type, its elements stand converted to `T`.
#[verifier::reject_recursive_types(T)]
pub struct Functions<T> {
    /// What an operation makes of one element.
    pub unary: spec_fn(UnaryOp, T) -> T,
    /// What an operation makes of the element of its left operand and that of its right one.
    pub binary: spec_fn(BinaryOp, T, T) -> T,
    /// What a reduction over axes makes of an array of a shape and its elements. Axes that stay
    /// with length one change no element, so whether they do makes no difference here.
    pub reduction: spec_fn(ReduceOp, Seq<i32>, Seq<T>, Seq<i32>) -> Seq<T>,
    /// The matrix product of two arrays, each with its shape.
    pub product: spec_fn(Seq<i32>, Seq<T>, Seq<i32>, Seq<T>) -> Seq<T>,
    /// Whether two arrays are equal, each with its shape. The flag says whether a NaN equals a NaN.
    pub equality: spec_fn(bool, Seq<i32>, Seq<T>, Seq<i32>, Seq<T>) -> T,
    /// The numbers from a start up to a stop by a step, each given by the bits of a float64.
    pub range: spec_fn(u64, u64, u64) -> Seq<T>,
    /// What becomes of an element that is converted to the type of this code.
    pub conversion: spec_fn(u32, T) -> T,
}

/// What stays as it is while calls are made.
#[verifier::reject_recursive_types(T)]
pub struct Setting<T> {
    /// The code of the element type that `T` stands for.
    pub element: u32,
    /// What zero is in `T`.
    pub zero: T,
    /// What one is in `T`.
    pub one: T,
    /// What the operations compute.
    pub functions: Functions<T>,
    /// The devices of streams that stay in use.
    pub streams: Map<RawStream, Device>,
}

/// What MLX keeps: the arrays behind the handles that are in use.
#[verifier::reject_recursive_types(T)]
pub struct Memory<T> {
    pub setting: Setting<T>,
    pub arrays: Map<RawArray, Stored<T>>,
}

impl<T> Memory<T> {
    pub open spec fn valid(self) -> bool {
        forall|h: RawArray| #[trigger]
            self.arrays.contains_key(h) ==> self.arrays[h].valid(self.setting.element)
    }

    /// One more array has come, behind a handle that was not in use.
    pub open spec fn gains(self, next: Memory<T>, handle: RawArray) -> bool {
        &&& !self.arrays.contains_key(handle)
        &&& next.setting == self.setting
        &&& next.arrays == self.arrays.insert(handle, next.arrays[handle])
        &&& next.arrays[handle].valid(self.setting.element)
    }

    /// One more array has come, with these elements in row-major order.
    pub open spec fn gains_data(
        self,
        next: Memory<T>,
        handle: RawArray,
        dtype: u32,
        shape: Seq<i32>,
        data: Seq<T>,
    ) -> bool {
        let stored = next.arrays[handle];
        &&& self.gains(next, handle)
        &&& stored.dtype == dtype
        &&& stored.shape == shape
        &&& dtype == self.setting.element ==> stored.elements == data
        &&& stored.dense
        &&& stored.buffer is Some
    }
}

/// The list that the C interface got.
pub open spec fn listed<T>(list: Option<&[T]>) -> Seq<T> {
    match list {
        Some(list) => list@,
        None => Seq::empty(),
    }
}

/// The two hold the same arrays, whether evaluated or not.
pub open spec fn unchanged<T>(memory: Memory<T>, next: Memory<T>) -> bool {
    &&& next.setting == memory.setting
    &&& next.arrays.dom() == memory.arrays.dom()
    &&& forall|h: RawArray| #[trigger]
        memory.arrays.contains_key(h) ==> next.arrays[h].same(memory.arrays[h])
}

/// The shape without its axes of length one.
pub open spec fn squeezed(shape: Seq<i32>) -> Seq<i32>
    decreases shape.len(),
{
    if shape.len() == 0 {
        shape
    } else if shape[0] == 1 {
        squeezed(shape.skip(1))
    } else {
        seq![shape[0]] + squeezed(shape.skip(1))
    }
}

/// The elements of a transposed array in row-major order: the element at an index is the one at
/// the reversed index before.
pub open spec fn transposed<T>(shape: Seq<i32>, elements: Seq<T>) -> Seq<T> {
    Seq::new(
        elements.len(),
        |r: int| elements[rank(shape, unrank(shape.reverse(), r).reverse())],
    )
}

/// An array of the shape `from` can be stretched over the shape `to`: axis by axis from the last
/// one, the lengths are equal or the array's is one.
pub open spec fn stretches(from: Seq<i32>, to: Seq<i32>) -> bool {
    let lead = to.len() - from.len();
    &&& lead >= 0
    &&& forall|i: int|
        0 <= i < from.len() ==> #[trigger] from[i] == 1 || from[i] == to[lead + i]
}

/// The index of the element that stands at `index` once an array of the shape `from` is stretched.
pub open spec fn shrunk(from: Seq<i32>, index: Seq<int>) -> Seq<int> {
    let lead = index.len() - from.len();
    Seq::new(
        from.len(),
        |i: int|
            if from[i] == 1 {
                0
            } else {
                index[lead + i]
            },
    )
}

/// The elements of an array of the shape `from` once it is stretched over the shape `to`.
pub open spec fn stretched<T>(from: Seq<i32>, to: Seq<i32>, elements: Seq<T>) -> Seq<T> {
    Seq::new(product(to) as nat, |r: int| elements[rank(from, shrunk(from, unrank(to, r)))])
}

/// The result has the element type of `a`, another shape, and these elements.
pub open spec fn rearranges<T>(
    a: Stored<T>,
    result: Stored<T>,
    shape: Seq<i32>,
    elements: Seq<T>,
) -> bool {
    &&& result.dtype == a.dtype
    &&& result.shape == shape
    &&& result.elements == elements
    &&& a.in_range ==> result.in_range
}

/// The result has this element type and shape, and all its elements are equal to `value`.
pub open spec fn filled<T>(result: Stored<T>, dtype: u32, shape: Seq<i32>, value: T) -> bool {
    &&& result.dtype == dtype
    &&& result.shape == shape
    &&& forall|i: int| 0 <= i < result.elements.len() ==> #[trigger] result.elements[i] == value
}

/// The operation compares its operands or takes them for true or false.
pub open spec fn gives_bool(op: BinaryOp) -> bool {
    match op {
        BinaryOp::Equal
        | BinaryOp::NotEqual
        | BinaryOp::Greater
        | BinaryOp::GreaterEqual
        | BinaryOp::Less
        | BinaryOp::LessEqual
        | BinaryOp::LogicalAnd
        | BinaryOp::LogicalOr => true,
        _ => false,
    }
}

/// The operation has the element type that its operands are promoted to.
pub open spec fn promotes(op: BinaryOp) -> bool {
    op == BinaryOp::Add || op == BinaryOp::Subtract || op == BinaryOp::Multiply
}

/// What is documented of promotion: equal types stay, `float32` is wider than `int32`, and
/// `float64` than `float32`.
pub open spec fn promoted(a: u32, b: u32, result: u32) -> bool {
    let (int32, float32, float64) = (
        Dtype::Int32.code(),
        Dtype::Float32.code(),
        Dtype::Float64.code(),
    );
    &&& a == b ==> result == a
    &&& a == int32 && b == float32 || a == float32 && b == int32 ==> result == float32
    &&& a == float32 && b == float64 || a == float64 && b == float32 ==> result == float64
}

/// The reduction takes the elements for true or false.
pub open spec fn reduces_to_bool(op: ReduceOp) -> bool {
    op == ReduceOp::All || op == ReduceOp::Any
}

/// The axes of a shape, in order.
pub open spec fn all_axes(shape: Seq<i32>) -> Seq<i32> {
    Seq::new(shape.len(), |i: int| i as i32)
}

/// What MLX documents of the result of an operation: shape and element type, and the elements by
/// the functions that the operations compute.
pub open spec fn yields<T>(op: Op, memory: Memory<T>, result: Stored<T>) -> bool {
    let arrays = memory.arrays;
    let functions = memory.setting.functions;
    let element = memory.setting.element;
    match op {
        Op::Contiguous { a, allow_col_major } => arrays.contains_key(a) ==> {
            &&& rearranges(arrays[a], result, arrays[a].shape, arrays[a].elements)
            &&& !allow_col_major ==> result.dense
        },
        Op::Shape { op: ShapeOp::Reshape, a, shape } => arrays.contains_key(a) && valid_shape(
            listed(shape),
        ) ==> rearranges(arrays[a], result, listed(shape), arrays[a].elements),
        Op::Shape { op: ShapeOp::BroadcastTo, a, shape } => arrays.contains_key(a) && valid_shape(
            listed(shape),
        ) ==> rearranges(
            arrays[a],
            result,
            listed(shape),
            stretched(arrays[a].shape, listed(shape), arrays[a].elements),
        ),
        Op::Unary { op: UnaryOp::Transpose, a } => arrays.contains_key(a) ==> rearranges(
            arrays[a],
            result,
            arrays[a].shape.reverse(),
            transposed(arrays[a].shape, arrays[a].elements),
        ),
        Op::Unary { op: UnaryOp::Squeeze, a } => arrays.contains_key(a) ==> rearranges(
            arrays[a],
            result,
            squeezed(arrays[a].shape),
            arrays[a].elements,
        ),
        Op::Unary { op, a } => arrays.contains_key(a) ==> {
            &&& result.shape == arrays[a].shape
            &&& op == UnaryOp::LogicalNot ==> result.dtype == Dtype::Bool.code()
            &&& arrays[a].dtype == element ==> forall|i: int|
                0 <= i < result.elements.len() ==> #[trigger] result.elements[i] == (
                functions.unary)(op, arrays[a].elements[i])
        },
        Op::Binary { op: BinaryOp::Matmul, a, b } => arrays.contains_key(a) && arrays.contains_key(
            b,
        ) && arrays[a].shape.len() > 0 && arrays[b].shape.len() > 0 ==> {
            &&& result.shape == multiplied(arrays[a].shape, arrays[b].shape)
            &&& arrays[a].dtype == element && arrays[b].dtype == element ==> result.elements == (
            functions.product)(
                arrays[a].shape,
                arrays[a].elements,
                arrays[b].shape,
                arrays[b].elements,
            )
        },
        Op::Binary { op, a, b } => arrays.contains_key(a) && arrays.contains_key(b) ==> {
            &&& result.shape == joined(arrays[a].shape, arrays[b].shape)
            &&& gives_bool(op) ==> result.dtype == Dtype::Bool.code()
            &&& promotes(op) ==> promoted(arrays[a].dtype, arrays[b].dtype, result.dtype)
            &&& arrays[a].dtype == element && arrays[b].dtype == element ==> forall|i: int|
                0 <= i < result.elements.len() ==> #[trigger] result.elements[i] == (
                functions.binary)(
                    op,
                    stretched(arrays[a].shape, result.shape, arrays[a].elements)[i],
                    stretched(arrays[b].shape, result.shape, arrays[b].elements)[i],
                )
        },
        Op::ArrayEqual { a, b, equal_nan } => {
            &&& result.shape == Seq::<i32>::empty()
            &&& result.dtype == Dtype::Bool.code()
            &&& arrays.contains_key(a) && arrays.contains_key(b) && arrays[a].dtype == element
                && arrays[b].dtype == element ==> result.elements == seq![
                (functions.equality)(
                    equal_nan,
                    arrays[a].shape,
                    arrays[a].elements,
                    arrays[b].shape,
                    arrays[b].elements,
                ),
            ]
        },
        Op::Reduce { op, a, keepdims } => arrays.contains_key(a) ==> {
            &&& result.shape == collapsed(arrays[a].shape, keepdims)
            &&& reduces_to_bool(op) ==> result.dtype == Dtype::Bool.code()
            &&& arrays[a].dtype == element ==> result.elements == (functions.reduction)(
                op,
                arrays[a].shape,
                arrays[a].elements,
                all_axes(arrays[a].shape),
            )
        },
        Op::ReduceAxes { op, a, axes, keepdims } => arrays.contains_key(a) && are_axes(
            listed(axes),
            arrays[a].shape.len(),
        ) ==> {
            &&& result.shape == reduced(arrays[a].shape, listed(axes), keepdims)
            &&& reduces_to_bool(op) ==> result.dtype == Dtype::Bool.code()
            &&& arrays[a].dtype == element ==> result.elements == (functions.reduction)(
                op,
                arrays[a].shape,
                arrays[a].elements,
                listed(axes),
            )
        },
        Op::ExpandDims { a, axis } => arrays.contains_key(a) && 0 <= axis <= arrays[a].shape.len()
            ==> rearranges(
            arrays[a],
            result,
            arrays[a].shape.insert(axis as int, 1),
            arrays[a].elements,
        ),
        Op::Astype { a, dtype } => arrays.contains_key(a) ==> {
            &&& result.dtype == dtype
            &&& result.shape == arrays[a].shape
            &&& dtype == arrays[a].dtype || dtype == memory.setting.element && arrays[a].in_range
                ==> result.elements == arrays[a].elements
            &&& arrays[a].dtype == element ==> forall|i: int|
                0 <= i < result.elements.len() ==> #[trigger] result.elements[i] == (
                functions.conversion)(dtype, arrays[a].elements[i])
        },
        Op::Fill { op, shape, dtype } => filled(
            result,
            dtype,
            listed(shape),
            match op {
                FillOp::Zeros => memory.setting.zero,
                FillOp::Ones => memory.setting.one,
            },
        ),
        Op::Full { shape, vals, dtype } => arrays.contains_key(vals) && arrays[vals].dtype == dtype
            && arrays[vals].elements.len() == 1 ==> filled(
            result,
            dtype,
            listed(shape),
            arrays[vals].elements[0],
        ),
        Op::Arange { start, stop, step, dtype } => {
            &&& result.dtype == dtype
            &&& result.shape.len() == 1
            &&& dtype == element ==> result.elements == (functions.range)(start, stop, step)
        },
    }
}

/// The stream is one of this device.
pub open spec fn runs_on<T>(memory: Memory<T>, stream: RawStream, device: Device) -> bool {
    memory.setting.streams.contains_key(stream) && memory.setting.streams[stream] == device
}

/// Arrays of this element type can be worked on by the stream: the GPU has no float64.
pub open spec fn supports<T>(memory: Memory<T>, stream: RawStream, dtype: u32) -> bool {
    runs_on(memory, stream, Device::Cpu) || dtype != Dtype::Float64.code()
}

/// The operation reads a float64 array, or is asked for one.
pub open spec fn needs_float64<T>(op: Op, memory: Memory<T>) -> bool {
    let float64 = Dtype::Float64.code();
    ||| exists|a: RawArray| #[trigger]
        reads(op, a) && memory.arrays.contains_key(a) && memory.arrays[a].dtype == float64
    ||| match op {
        Op::Fill { dtype, .. }
        | Op::Full { dtype, .. }
        | Op::Arange { dtype, .. }
        | Op::Astype { dtype, .. } => dtype == float64,
        _ => false,
    }
}

/// MLX documents the operation as one that cannot fail on these arguments.
pub open spec fn accepts<T>(op: Op, stream: RawStream, memory: Memory<T>) -> bool {
    let arrays = memory.arrays;
    match op {
        Op::Shape { op, a, shape } => {
            &&& arrays.contains_key(a)
            &&& supports(memory, stream, arrays[a].dtype)
            &&& valid_shape(listed(shape))
            &&& match op {
                ShapeOp::Reshape => product(listed(shape)) == arrays[a].elements.len(),
                ShapeOp::BroadcastTo => stretches(arrays[a].shape, listed(shape)),
            }
        },
        Op::Unary { op: UnaryOp::Transpose, a } | Op::Unary { op: UnaryOp::Squeeze, a } => {
            arrays.contains_key(a) && supports(memory, stream, arrays[a].dtype)
        },
        Op::ExpandDims { a, axis } => {
            &&& arrays.contains_key(a)
            &&& supports(memory, stream, arrays[a].dtype)
            &&& 0 <= axis <= arrays[a].shape.len()
        },
        Op::Astype { a, dtype } => {
            &&& arrays.contains_key(a)
            &&& supports(memory, stream, arrays[a].dtype)
            &&& supports(memory, stream, dtype)
        },
        Op::Fill { shape, dtype, .. } => {
            supports(memory, stream, dtype) && valid_shape(listed(shape))
        },
        Op::Full { shape, vals, dtype } => {
            &&& arrays.contains_key(vals)
            &&& arrays[vals].dtype == dtype
            &&& arrays[vals].elements.len() == 1
            &&& supports(memory, stream, dtype)
            &&& valid_shape(listed(shape))
        },
        _ => false,
    }
}

/// MLX documents the operation as one that fails on these arguments: the shapes do not fit, or it
/// would need float64 on the GPU.
pub open spec fn rejects<T>(op: Op, stream: RawStream, memory: Memory<T>) -> bool {
    ||| runs_on(memory, stream, Device::Gpu) && needs_float64(op, memory)
    ||| misfits(op, memory)
}

/// The shapes of the operands do not fit the operation.
pub open spec fn misfits<T>(op: Op, memory: Memory<T>) -> bool {
    let arrays = memory.arrays;
    match op {
        Op::Binary { op: BinaryOp::Matmul, a, b } => {
            &&& arrays.contains_key(a)
            &&& arrays.contains_key(b)
            &&& arrays[a].shape.len() > 0
            &&& arrays[b].shape.len() > 0
            &&& !multiplies(arrays[a].shape, arrays[b].shape)
        },
        Op::Binary { a, b, .. } => {
            &&& arrays.contains_key(a)
            &&& arrays.contains_key(b)
            &&& !joins(arrays[a].shape, arrays[b].shape)
        },
        Op::Shape { op, a, shape } => {
            &&& memory.arrays.contains_key(a)
            &&& valid_shape(listed(shape))
            &&& match op {
                ShapeOp::Reshape => product(listed(shape)) != memory.arrays[a].elements.len(),
                ShapeOp::BroadcastTo => !stretches(memory.arrays[a].shape, listed(shape)),
            }
        },
        _ => false,
    }
}

/// What a call does to the memory, and what its reply says of it. A call of which nothing is said
/// here leaves the memory as it is, and one on a handle that is not in use may reply anything.
/// Where a call gets a list with a count, only so many entries of the list are read.
///
/// Evaluation is taken to succeed: nothing looks at its status, so what comes after a failed one is
/// left open.
pub open spec fn acts<T>(
    call: Call<T>,
    reply: Reply<T>,
    memory: Memory<T>,
    next: Memory<T>,
) -> bool {
    match call {
        Call::NewData { data, shape, dim, dtype } => {
            let dims = listed(shape).take(dim as int);
            &&& product(listed(shape)) == listed(data).len()
            &&& listed(shape).len() <= i32::MAX
            &&& memory.gains_data(
                next,
                reply->Array_0,
                dtype,
                dims,
                listed(data).take(product(dims)),
            )
        },
        Call::NewScalar { value, dtype } => memory.gains_data(
            next,
            reply->Array_0,
            dtype,
            Seq::empty(),
            seq![value],
        ),
        Call::Invoke { op, stream, .. } => if failed(reply) {
            &&& next == memory
            &&& !memory.arrays.contains_key(reply->out)
            &&& !accepts(op, stream, memory)
        } else {
            &&& memory.gains(next, reply->out)
            &&& yields(op, memory, next.arrays[reply->out])
            &&& !rejects(op, stream, memory)
        },
        Call::Eval { array } => {
            &&& unchanged(memory, next)
            &&& forall|h: RawArray| #[trigger]
                memory.arrays.contains_key(h) ==> {
                    &&& next.arrays[h].valid(memory.setting.element)
                    &&& memory.arrays[h].buffer is Some ==> next.arrays[h] == memory.arrays[h]
                }
            &&& memory.arrays.contains_key(array) ==> next.arrays[array].buffer is Some
            &&& memory.arrays.contains_key(array) && memory.arrays[array].buffer is Some ==> next
                == memory
        },
        Call::FreeArray { array } => {
            &&& next.setting == memory.setting
            &&& next.arrays == memory.arrays.remove(array)
        },
        _ => {
            &&& next == memory
            &&& reports(call, reply, memory)
        },
    }
}

/// What the reply to a question about an array says.
pub open spec fn reports<T>(call: Call<T>, reply: Reply<T>, memory: Memory<T>) -> bool {
    match call {
        Call::Size { array } => memory.arrays.contains_key(array) ==> reply->Count_0
            == memory.arrays[array].elements.len(),
        Call::Ndim { array } => memory.arrays.contains_key(array) ==> reply->Count_0
            == memory.arrays[array].shape.len(),
        Call::Shape { array, ndim } => memory.arrays.contains_key(array) ==> reply->Dims_0@
            == memory.arrays[array].shape.take(ndim as int),
        Call::Strides { array, ndim } => memory.arrays.contains_key(array)
            && memory.arrays[array].buffer is Some ==> reply->Strides_0@
            == memory.arrays[array].tensor().strides.take(ndim as int),
        Call::Dtype { array } => memory.arrays.contains_key(array) ==> reply->Code_0
            == memory.arrays[array].dtype,
        Call::Item { array } => memory.arrays.contains_key(array)
            && memory.arrays[array].buffer is Some && memory.arrays[array].elements.len() == 1
            ==> reply->Item_0 == memory.arrays[array].elements[0],
        Call::Copy { array, len } => memory.arrays.contains_key(array)
            && memory.arrays[array].buffer is Some && memory.arrays[array].dtype
            == memory.setting.element ==> reply->Elements_0@
            == memory.arrays[array].tensor().storage.take(len as int),
        _ => true,
    }
}

/// The calls, one after the other, act on the memory: `states` begins with the memory before them
/// and goes on with the memory after each.
pub open spec fn run<T>(
    calls: Seq<Call<T>>,
    replies: Seq<Reply<T>>,
    states: Seq<Memory<T>>,
) -> bool {
    &&& calls.len() <= replies.len()
    &&& states.len() == calls.len() + 1
    &&& states[0].valid()
    &&& forall|i: int|
        0 <= i < calls.len() ==> acts(
            #[trigger] calls[i],
            replies[i],
            states[i],
            states[i + 1],
        )
}

/// The first `n` calls act on the memory one after the other.
pub open spec fn steps<T>(
    calls: Seq<Call<T>>,
    replies: Seq<Reply<T>>,
    states: Seq<Memory<T>>,
    n: int,
) -> bool
    decreases n,
{
    n > 0 ==> {
        &&& steps(calls, replies, states, n - 1)
        &&& acts(calls[n - 1], replies[n - 1], states[n - 1], states[n])
    }
}

/// Calls that act one after the other do so step by step.
pub proof fn lemma_steps<T>(
    calls: Seq<Call<T>>,
    replies: Seq<Reply<T>>,
    states: Seq<Memory<T>>,
    n: int,
)
    requires
        run(calls, replies, states),
        n <= calls.len(),
    ensures
        steps(calls, replies, states, n),
    decreases n,
{
    if n > 0 {
        lemma_steps(calls, replies, states, n - 1);
    }
}

/// The calls leave the parts of the memory fitting together.
proof fn lemma_valid<T>(
    calls: Seq<Call<T>>,
    replies: Seq<Reply<T>>,
    states: Seq<Memory<T>>,
    n: int,
)
    requires
        run(calls, replies, states),
        0 <= n <= calls.len(),
    ensures
        states[n].valid(),
        states[n].setting == states[0].setting,
    decreases n,
{
    if n > 0 {
        lemma_valid(calls, replies, states, n - 1);
        assert(acts(calls[n - 1], replies[n - 1], states[n - 1], states[n]));
        assert forall|h: RawArray| #[trigger] states[n].arrays.contains_key(h) implies states[
            n].arrays[h].valid(states[n].setting.element) by {
            if states[n - 1].arrays.contains_key(h) {
                assert(states[n - 1].arrays[h].valid(states[n - 1].setting.element));
            }
        }
    }
}

/// Two lists of calls, one after the other, act one after the other.
proof fn lemma_run_split<T>(
    a: Seq<Call<T>>,
    b: Seq<Call<T>>,
    replies: Seq<Reply<T>>,
    states: Seq<Memory<T>>,
)
    requires
        run(a + b, replies, states),
    ensures
        run(a, replies, states.take((a.len() + 1) as int)),
        run(b, after(replies, a.len() as int), states.skip(a.len() as int)),
{
    let calls = a + b;
    let n = a.len() as int;
    assert forall|i: int| 0 <= i < a.len() implies acts(
        #[trigger] a[i],
        replies[i],
        states.take(n + 1)[i],
        states.take(n + 1)[i + 1],
    ) by {
        assert(calls[i] == a[i]);
    }
    lemma_valid(calls, replies, states, n);
    assert forall|i: int| 0 <= i < b.len() implies acts(
        #[trigger] b[i],
        after(replies, n)[i],
        states.skip(n)[i],
        states.skip(n)[i + 1],
    ) by {
        assert(calls[n + i] == b[i]);
        assert(after(replies, n)[i] == replies[n + i]);
    }
}

/// Copying the storage buffer of an evaluated, row-contiguous array gives its elements, if they are
/// of the wanted type, and changes nothing.
pub proof fn reading_the_buffer_gives_the_elements<'a, T: Copy>(
    plan: ReadPlan,
    replies: Seq<Reply<T>>,
    output: Result<Vec<T>, Dtype>,
    states: Seq<Memory<T>>,
)
    requires
        run(read_calls::<'a, T>(plan, replies), replies, states),
        read_gives(plan, replies, output),
        states[0].setting.element == plan.dtype.code(),
        states[0].arrays.contains_key(plan.array),
        states[0].arrays[plan.array].buffer is Some,
        row_contiguous(
            states[0].arrays[plan.array].shape,
            states[0].arrays[plan.array].tensor().strides,
        ),
    ensures
        states.last() == states[0],
        match output {
            Ok(elements) => {
                &&& states[0].arrays[plan.array].dtype == plan.dtype.code()
                &&& elements@ == states[0].arrays[plan.array].elements
            },
            Err(found) => {
                &&& states[0].arrays[plan.array].dtype != plan.dtype.code()
                &&& states[0].arrays[plan.array].dtype == found.code()
            },
        },
{
    let calls = read_calls::<'a, T>(plan, replies);
    let stored = states[0].arrays[plan.array];
    assert(acts(calls[0], replies[0], states[0], states[1]));
    if replies[0]->Code_0 == plan.dtype.code() {
        assert(acts(calls[1], replies[1], states[1], states[2]));
        row_contiguous_storage_is_logical(stored.tensor());
        if replies[1]->Count_0 != 0 {
            assert(acts(calls[2], replies[2], states[2], states[3]));
        } else {
            assert(stored.elements =~= Seq::<T>::empty());
        }
    }
}

/// What reading an array's elements comes to, where MLX keeps `stored` behind the handle.
pub open spec fn elements_of<T>(
    stored: Stored<T>,
    dtype: Dtype,
    output: Result<Vec<T>, ToVecError>,
) -> bool {
    match output {
        Ok(elements) => stored.dtype == dtype.code() && elements@ == stored.elements,
        Err(ToVecError::Dtype { found }) => stored.dtype != dtype.code() && stored.dtype
            == found.code(),
        Err(ToVecError::Contiguous { .. }) => false,
    }
}

/// Reading an array through a row-contiguous copy gives its elements in logical order, if they are
/// of the wanted type and the copy can be made, and leaves the arrays as they are.
pub proof fn reading_a_copy_gives_the_elements<'a, T: Copy>(
    plan: ReadPlan,
    replies: Seq<Reply<T>>,
    output: Result<Vec<T>, ToVecError>,
    states: Seq<Memory<T>>,
)
    requires
        run(copy_calls::<'a, T>(plan, replies), replies, states),
        copy_gives(plan, replies, output),
        states[0].setting.element == plan.dtype.code(),
        states[0].arrays.contains_key(plan.array),
    ensures
        unchanged(states[0], states.last()),
        !failed(replies[4]) ==> elements_of(states[0].arrays[plan.array], plan.dtype, output),
{
    let calls = copy_calls::<'a, T>(plan, replies);
    let copy = replies[4]->out;
    assert(after(replies, 2)[2] == replies[4]);
    lemma_steps(calls, replies, states, 4);
    reveal_with_fuel(steps, 5);
    assert(states[4] == states[0]);
    let op = copy_plan::<T>(plan.array, replies).op;
    assert(calls[4] matches Call::Invoke { op: made, .. } && made == op);
    lemma_steps(calls, replies, states, 7);
    reveal_with_fuel(steps, 9);
    if failed(replies[4]) {
        assert(states[6].arrays =~= states[0].arrays);
    } else {
        lemma_steps(calls, replies, states, 8);
        lemma_valid(calls, replies, states, 8);
        assert(states[7].arrays.contains_key(copy));
        assert(states[7].arrays.contains_key(plan.array));
        assert(states[7].arrays[copy].dense);
        assert(states[8].arrays.dom().contains(copy));
        assert(states[8].arrays[copy].valid(plan.dtype.code()));
        let read = ReadPlan { array: copy, dtype: plan.dtype };
        let reading = read_calls::<'a, T>(read, after(replies, 8));
        let free: Seq<Call<T>> = seq![Call::FreeArray { array: copy }];
        let first = calls.take(8);
        assert(calls =~= first + (reading + free));
        lemma_run_split(first, reading + free, replies, states);
        let later = states.skip(8);
        lemma_run_split(reading, free, after(replies, 8), later);
        let n = reading.len() as int;
        let inner = match output {
            Ok(elements) => Ok(elements),
            Err(ToVecError::Dtype { found }) => Err(found),
            Err(ToVecError::Contiguous { .. }) => arbitrary(),
        };
        reading_the_buffer_gives_the_elements::<T>(
            read,
            after(replies, 8),
            inner,
            later.take(n + 1),
        );
        assert(acts(calls[8 + n], replies[8 + n], states[8 + n], states[9 + n]));
        assert(states[8 + n] == states[8]);
        assert(states.last().arrays =~= states[8].arrays.remove(copy));
        assert(states.last().arrays.dom() =~= states[0].arrays.dom());
    }
}

/// Reading the elements of an array gives them in logical (row-major) order, however they lie in
/// the storage buffer: if the element type is not the wanted one, the error names it, and the only
/// other failure is that of making the row-contiguous copy that another layout needs. The arrays
/// stay as they are.
pub proof fn reading_gives_the_elements<'a, T: Copy>(
    plan: ReadPlan,
    replies: Seq<Reply<T>>,
    output: Result<Vec<T>, ToVecError>,
    states: Seq<Memory<T>>,
)
    requires
        run(to_vec_calls::<'a, T>(plan, replies), replies, states),
        to_vec_gives(plan, replies, output),
        states[0].setting.element == plan.dtype.code(),
        states[0].arrays.contains_key(plan.array),
    ensures
        unchanged(states[0], states.last()),
        contiguous(replies) || !failed(replies[9]) ==> elements_of(
            states[0].arrays[plan.array],
            plan.dtype,
            output,
        ),
{
    let calls = to_vec_calls::<'a, T>(plan, replies);
    let first = eval_calls::<'a, T>(plan.array, replies);
    lemma_steps(calls, replies, states, 5);
    reveal_with_fuel(steps, 6);
    assert(after(replies, 2)[0] == replies[2]);
    assert(states[2].arrays.dom().contains(plan.array));
    lemma_valid(calls, replies, states, 2);
    assert(states[2].arrays[plan.array].valid(plan.dtype.code()));
    states[2].arrays[plan.array].lemma_lists_are_whole();
    let rest = if contiguous(replies) {
        read_calls::<'a, T>(plan, after(replies, 5))
    } else {
        copy_calls::<'a, T>(plan, after(replies, 5))
    };
    assert(calls =~= first + rest);
    lemma_run_split(first, rest, replies, states);
    if contiguous(replies) {
        let inner = match output {
            Ok(elements) => Ok(elements),
            Err(ToVecError::Dtype { found }) => Err(found),
            Err(ToVecError::Contiguous { .. }) => arbitrary(),
        };
        reading_the_buffer_gives_the_elements::<T>(plan, after(replies, 5), inner, states.skip(5));
    } else {
        assert(after(replies, 5)[4] == replies[9]);
        reading_a_copy_gives_the_elements::<T>(plan, after(replies, 5), output, states.skip(5));
    }
}

/// The element type of the values that an array is built from.
pub open spec fn dtype_of<T>(plan: BuildPlan<T>) -> Dtype {
    match plan {
        BuildPlan::Slice { dtype, .. } | BuildPlan::Scalar { dtype, .. } => dtype,
    }
}

/// The dimensions of an array that is built from values.
pub open spec fn shape_of<T>(plan: BuildPlan<T>) -> Seq<i32> {
    match plan {
        BuildPlan::Slice { shape, .. } => shape@,
        BuildPlan::Scalar { .. } => Seq::empty(),
    }
}

/// The values that an array is built from, in row-major order.
pub open spec fn values_of<T>(plan: BuildPlan<T>) -> Seq<T> {
    match plan {
        BuildPlan::Slice { data, .. } => data@,
        BuildPlan::Scalar { value, .. } => seq![value],
    }
}

/// Building an array brings one more array, with the given type, shape and values, and leaves the
/// others as they are.
pub proof fn building_stores_the_values<'a, T: Copy>(
    plan: BuildPlan<'a, T>,
    replies: Seq<Reply<T>>,
    array: Array,
    states: Seq<Memory<T>>,
)
    requires
        run(build_calls(plan), replies, states),
        <BuildTask<'a, T> as Task<'a, T>>::gives(plan, replies, array),
        states[0].setting.element == dtype_of(plan).code(),
    ensures
        states[0].gains_data(
            states.last(),
            array.raw(),
            dtype_of(plan).code(),
            shape_of(plan),
            values_of(plan),
        ),
{
    let calls = build_calls(plan);
    lemma_steps(calls, replies, states, 2);
    reveal_with_fuel(steps, 3);
    match plan {
        BuildPlan::Slice { data, shape, .. } => {
            assert(listed(ffi_list(data)) =~= data@);
            assert(listed(ffi_list(shape)) =~= shape@);
            assert(shape@.take(shape@.len() as int) =~= shape@);
            assert(data@.take(data@.len() as int) =~= data@);
        },
        BuildPlan::Scalar { .. } => {},
    }
}

/// What is written is read back: the elements of an array that was built from values are those
/// values in the same order, and reading them cannot fail. Whatever happens between the two may
/// bring and free other arrays.
pub proof fn values_are_read_back<'a, T: Copy>(
    plan: BuildPlan<'a, T>,
    build_replies: Seq<Reply<T>>,
    array: Array,
    building: Seq<Memory<T>>,
    read_replies: Seq<Reply<T>>,
    output: Result<Vec<T>, ToVecError>,
    reading: Seq<Memory<T>>,
)
    requires
        run(build_calls(plan), build_replies, building),
        <BuildTask<'a, T> as Task<'a, T>>::gives(plan, build_replies, array),
        building[0].setting.element == dtype_of(plan).code(),
        reading[0].setting == building[0].setting,
        reading[0].arrays.contains_key(array.raw()),
        reading[0].arrays[array.raw()].same(building.last().arrays[array.raw()]),
        run(
            to_vec_calls::<'a, T>(
                ReadPlan { array: array.raw(), dtype: dtype_of(plan) },
                read_replies,
            ),
            read_replies,
            reading,
        ),
        to_vec_gives(
            ReadPlan { array: array.raw(), dtype: dtype_of(plan) },
            read_replies,
            output,
        ),
    ensures
        output matches Ok(elements) && elements@ == values_of(plan),
{
    building_stores_the_values(plan, build_replies, array, building);
    let read = ReadPlan { array: array.raw(), dtype: dtype_of(plan) };
    let calls = to_vec_calls::<'a, T>(read, read_replies);
    lemma_steps(calls, read_replies, reading, 5);
    reveal_with_fuel(steps, 6);
    lemma_valid(calls, read_replies, reading, 2);
    assert(reading[1].arrays.contains_key(array.raw()));
    assert(reading[2].arrays.dom().contains(array.raw()));
    assert(reading[2].arrays[array.raw()].valid(read.dtype.code()));
    assert(after(read_replies, 2)[0] == read_replies[2]);
    reading[2].arrays[array.raw()].lemma_lists_are_whole();
    assert(contiguous(read_replies));
    reading_gives_the_elements::<T>(read, read_replies, output, reading);
}

/// Reading the value of an array gives its only element. An array with another number of elements
/// is refused, with that number.
pub proof fn reading_an_item_gives_the_element<'a, T: Copy>(
    array: RawArray,
    replies: Seq<Reply<T>>,
    output: Result<T, NotScalar>,
    states: Seq<Memory<T>>,
)
    requires
        run(item_calls::<'a, T>(array, replies), replies, states),
        <ItemTask<'a, T> as Task<'a, T>>::gives(array, replies, output),
        states[0].arrays.contains_key(array),
    ensures
        unchanged(states[0], states.last()),
        match output {
            Ok(value) => states[0].arrays[array].elements == seq![value],
            Err(error) => {
                &&& states[0].arrays[array].elements.len() != 1
                &&& states[0].arrays[array].elements.len() == error.size
            },
        },
{
    let calls = item_calls::<'a, T>(array, replies);
    lemma_steps(calls, replies, states, 3);
    reveal_with_fuel(steps, 4);
    assert(states[2].arrays.dom().contains(array));
    if replies[2]->Count_0 == 1 {
        assert(acts(calls[3], replies[3], states[3], states[4]));
        assert(states[0].arrays[array].elements =~= seq![replies[3]->Item_0]);
    }
}

/// A value that was made into an array without dimensions is read back.
pub proof fn a_scalar_is_read_back<'a, T: Copy>(
    value: T,
    dtype: Dtype,
    build_replies: Seq<Reply<T>>,
    array: Array,
    building: Seq<Memory<T>>,
    item_replies: Seq<Reply<T>>,
    output: Result<T, NotScalar>,
    reading: Seq<Memory<T>>,
)
    requires
        run(build_calls(BuildPlan::Scalar { value, dtype }), build_replies, building),
        <BuildTask<'a, T> as Task<'a, T>>::gives(
            BuildPlan::Scalar { value, dtype },
            build_replies,
            array,
        ),
        building[0].setting.element == dtype.code(),
        reading[0].arrays.contains_key(array.raw()),
        reading[0].arrays[array.raw()].same(building.last().arrays[array.raw()]),
        run(item_calls::<'a, T>(array.raw(), item_replies), item_replies, reading),
        <ItemTask<'a, T> as Task<'a, T>>::gives(array.raw(), item_replies, output),
    ensures
        output matches Ok(v) && v == value,
{
    building_stores_the_values(BuildPlan::Scalar { value, dtype }, build_replies, array, building);
    reading_an_item_gives_the_element::<T>(array.raw(), item_replies, output, reading);
    assert(seq![value][0] == value);
    if let Ok(v) = output {
        assert(seq![v][0] == v);
    }
}

/// A single value and a slice of that value without dimensions make the same array.
pub proof fn a_scalar_is_a_slice_of_one<'a, T: Copy>(
    value: T,
    data: &'a [T],
    shape: &'a [i32],
    dtype: Dtype,
    replies: Seq<Reply<T>>,
    states: Seq<Memory<T>>,
)
    requires
        data@ == seq![value],
        shape@ == Seq::<i32>::empty(),
    ensures
        fills(BuildPlan::Slice { data, dtype, shape }),
        run(build_calls(BuildPlan::Slice { data, dtype, shape }), replies, states) == run(
            build_calls(BuildPlan::Scalar { value, dtype }),
            replies,
            states,
        ),
{
    let slice = build_calls(BuildPlan::Slice { data, dtype, shape });
    let scalar = build_calls(BuildPlan::Scalar { value, dtype });
    assert(product(shape@) == 1);
    assert(listed(ffi_list(data)) =~= seq![value]);
    assert(listed(ffi_list(shape)) =~= Seq::<i32>::empty());
    assert(Seq::<i32>::empty().take(0) =~= Seq::<i32>::empty());
    assert(seq![value].take(1) =~= seq![value]);
    assert(acts(slice[0], replies[0], states[0], states[1]) == acts(
        scalar[0],
        replies[0],
        states[0],
        states[1],
    ));
    assert(acts(slice[1], replies[1], states[1], states[2]) == acts(
        scalar[1],
        replies[1],
        states[1],
        states[2],
    ));
    assert(run(slice, replies, states) ==> run(scalar, replies, states)) by {
        if run(slice, replies, states) {
            assert forall|i: int| 0 <= i < scalar.len() implies acts(
                #[trigger] scalar[i],
                replies[i],
                states[i],
                states[i + 1],
            ) by {
                assert(acts(slice[i], replies[i], states[i], states[i + 1]));
                assert(i == 0 || i == 1);
            }
        }
    }
    assert(run(scalar, replies, states) ==> run(slice, replies, states)) by {
        if run(scalar, replies, states) {
            assert forall|i: int| 0 <= i < slice.len() implies acts(
                #[trigger] slice[i],
                replies[i],
                states[i],
                states[i + 1],
            ) by {
                assert(acts(scalar[i], replies[i], states[i], states[i + 1]));
                assert(i == 0 || i == 1);
            }
        }
    }
}

/// The arrays once the result of an operation has taken the place of `replaced`, if it takes the
/// place of one: the result has come, and nothing else has changed. A failed operation changes
/// nothing.
pub open spec fn settled<T, E>(
    before: Memory<T>,
    next: Memory<T>,
    replaced: Option<RawArray>,
    output: Result<Array, E>,
) -> bool {
    let rest = match replaced {
        Some(target) => before.arrays.remove(target),
        None => before.arrays,
    };
    &&& next.setting == before.setting
    &&& match output {
        Ok(array) => {
            &&& !before.arrays.contains_key(array.raw())
            &&& next.arrays == rest.insert(array.raw(), next.arrays[array.raw()])
        },
        Err(_) => next.arrays == before.arrays,
    }
}

/// An operation brings its result, and leaves its operands and all other arrays as they are.
pub proof fn operations_leave_the_other_arrays<'a, T: Copy>(
    plan: OpPlan<'a>,
    replies: Seq<Reply<T>>,
    output: Result<Array, Error>,
    states: Seq<Memory<T>>,
)
    requires
        run(op_calls(plan, replies), replies, states),
        op_gives(replies, output),
    ensures
        settled(states[0], states.last(), None, output),
{
    let calls = op_calls(plan, replies);
    lemma_steps(calls, replies, states, 3);
    reveal_with_fuel(steps, 4);
    if failed(replies[2]) {
        assert(acts(calls[3], replies[3], states[3], states[4]));
        assert(states[4].arrays =~= states[0].arrays);
    }
}

/// An operation on the default stream does so too, but for the array whose place its result takes.
pub proof fn operations_on_the_default_stream_leave_the_other_arrays<'a, T: Copy>(
    plan: DefaultPlan<'a>,
    replies: Seq<Reply<T>>,
    output: Result<Array, Error>,
    states: Seq<Memory<T>>,
)
    requires
        run(default_calls(plan, replies), replies, states),
        <DefaultTask<'a, T> as Task<'a, T>>::gives(plan, replies, output),
        plan.replaced matches Some(target) ==> states[0].arrays.contains_key(target),
    ensures
        settled(states[0], states.last(), plan.replaced, output),
{
    let calls = default_calls(plan, replies);
    let get = stream_calls::<'a, T>(StreamPlan::Default, replies);
    let run_calls = op_calls(on_default(plan.op, replies), after(replies, 6));
    let replace = replace_calls::<'a, T>(plan.replaced, failed(replies[8]));
    let free: Seq<Call<T>> = seq![Call::FreeStream { stream: replies[4]->Stream_0 }];
    assert(calls =~= get + (run_calls + (replace + free)));
    lemma_run_split(get, run_calls + (replace + free), replies, states);
    lemma_steps(calls, replies, states, 6);
    reveal_with_fuel(steps, 7);
    let later = states.skip(6);
    lemma_run_split(run_calls, replace + free, after(replies, 6), later);
    let n = run_calls.len() as int;
    operations_leave_the_other_arrays(
        on_default(plan.op, replies),
        after(replies, 6),
        output,
        later.take(n + 1),
    );
    assert(after(replies, 6)[2] == replies[8]);
    assert(states[6] == states[0]);
    assert(acts(calls[6 + n], replies[6 + n], states[6 + n], states[7 + n]));
    if replace.len() > 0 {
        assert(acts(calls[7 + n], replies[7 + n], states[7 + n], states[8 + n]));
        assert(output is Ok);
        let result = output->Ok_0.raw();
        let target = plan.replaced->Some_0;
        assert(states.last().arrays =~= states[0].arrays.remove(target).insert(
            result,
            states.last().arrays[result],
        ));
    }
}

/// An operator brings its result and leaves its operands and all other arrays as they are, but for
/// the left operand of a successful assignment, which goes.
pub proof fn operators_leave_the_other_arrays<'a, T: Copy>(
    plan: OperatorPlan<T>,
    replies: Seq<Reply<T>>,
    output: Result<Array, OperatorError>,
    states: Seq<Memory<T>>,
)
    requires
        run(operator_calls::<'a, T>(plan, replies), replies, states),
        operator_gives(plan, replies, output),
        plan.replaced() matches Some(target) ==> states[0].arrays.contains_key(target),
    ensures
        settled(states[0], states.last(), plan.replaced(), output),
{
    let calls = operator_calls::<'a, T>(plan, replies);
    let outcome = match output {
        Ok(array) => Ok(array),
        Err(failure) => Err(failure.error),
    };
    match plan.scalar::<'a>() {
        None => {
            let plan_run = plan.run(RawArray { ctx: 0 });
            operations_on_the_default_stream_leave_the_other_arrays(
                plan_run,
                replies,
                outcome,
                states,
            );
        },
        Some(scalar) => {
            let built = replies[1]->Array_0;
            let build = build_calls(scalar);
            let later = after(replies, 2);
            let plan_run = plan.run(built);
            let running = default_calls(plan_run, later);
            let free: Seq<Call<T>> = seq![Call::FreeArray { array: built }];
            assert(calls =~= build + (running + free));
            lemma_run_split(build, running + free, replies, states);
            lemma_run_split(running, free, later, states.skip(2));
            lemma_steps(calls, replies, states, 2);
            reveal_with_fuel(steps, 3);
            let n = running.len() as int;
            assert(after(later, 6) =~= after(replies, 8));
            operations_on_the_default_stream_leave_the_other_arrays(
                plan_run,
                later,
                outcome,
                states.skip(2).take(n + 1),
            );
            assert(acts(calls[2 + n], replies[2 + n], states[2 + n], states[3 + n]));
            match output {
                Ok(array) => {
                    let rest = match plan.replaced() {
                        Some(target) => states[0].arrays.remove(target),
                        None => states[0].arrays,
                    };
                    assert(states.last().arrays =~= rest.insert(
                        array.raw(),
                        states.last().arrays[array.raw()],
                    ));
                },
                Err(_) => {
                    assert(states.last().arrays =~= states[0].arrays);
                },
            }
        },
    }
}

/// What an operator comes to is what the operation behind it gives on the memory that it finds, in
/// which a plain value stands as the array that was built from it. It succeeds only where the
/// operation does not reject its operands.
pub proof fn operators_yield_what_operations_yield<'a, T: Copy>(
    plan: OperatorPlan<T>,
    replies: Seq<Reply<T>>,
    output: Result<Array, OperatorError>,
    states: Seq<Memory<T>>,
)
    requires
        run(operator_calls::<'a, T>(plan, replies), replies, states),
        operator_gives(plan, replies, output),
        plan.replaced() matches Some(target) ==> states[0].arrays.contains_key(target),
    ensures
        output matches Ok(array) ==> {
            let scalar = replies[1]->Array_0;
            let found = states[run_place(plan) - 6];
            let op = plan.operation(scalar);
            &&& yields(op, found, states.last().arrays[array.raw()])
            &&& states.last().arrays.contains_key(array.raw())
            &&& states.last().arrays[array.raw()].valid(found.setting.element)
            &&& found.setting == states[0].setting
            &&& !misfits(op, found)
        },
        plan.scalar::<'a>() is Some ==> {
            let scalar = replies[1]->Array_0;
            &&& !states[0].arrays.contains_key(scalar)
            &&& states[2].arrays == states[0].arrays.insert(scalar, states[2].arrays[scalar])
            &&& states[2].arrays[scalar].shape == Seq::<i32>::empty()
        },
{
    let calls = operator_calls::<'a, T>(plan, replies);
    let place = run_place(plan);
    if plan.scalar::<'a>() is Some {
        assert(after(replies, 2)[8] == replies[10]);
    }
    assert(after(replies, place)[2] == replies[place + 2]);
    operators_leave_the_other_arrays::<T>(plan, replies, output, states);
    lemma_steps(calls, replies, states, calls.len() as int);
    reveal_with_fuel(steps, 16);
    lemma_valid(calls, replies, states, calls.len() as int);
    lemma_valid(calls, replies, states, place - 6);
}

/// Filling a shape brings its result and leaves all other arrays as they are.
pub proof fn filling_leaves_the_other_arrays<'a, T: Copy>(
    plan: FullPlan<'a, T>,
    replies: Seq<Reply<T>>,
    output: Result<Array, Error>,
    states: Seq<Memory<T>>,
)
    requires
        run(full_calls(plan, replies), replies, states),
        <FullTask<'a, T> as Task<'a, T>>::gives(plan, replies, output),
    ensures
        settled(states[0], states.last(), None, output),
{
    let calls = full_calls(plan, replies);
    let vals = replies[1]->Array_0;
    let build = build_calls(BuildPlan::Scalar { value: plan.value, dtype: plan.dtype });
    let later = after(replies, 2);
    let running = op_calls(spread(plan, vals), later);
    let free: Seq<Call<T>> = seq![Call::FreeArray { array: vals }];
    assert(calls =~= build + (running + free));
    lemma_run_split(build, running + free, replies, states);
    lemma_run_split(running, free, later, states.skip(2));
    lemma_steps(calls, replies, states, 2);
    reveal_with_fuel(steps, 3);
    let n = running.len() as int;
    operations_leave_the_other_arrays(
        spread(plan, vals),
        later,
        output,
        states.skip(2).take(n + 1),
    );
    assert(acts(calls[2 + n], replies[2 + n], states[2 + n], states[3 + n]));
    match output {
        Ok(array) => {
            assert(states.last().arrays =~= states[0].arrays.insert(
                array.raw(),
                states.last().arrays[array.raw()],
            ));
        },
        Err(_) => {
            assert(states.last().arrays =~= states[0].arrays);
        },
    }
}

} // verus!
