//! Arrays.

use std::marker::PhantomData;
use std::rc::Rc;

use vstd::prelude::*;

use crate::call::{
    as_ffi_list, ffi_list, BinaryOp, Call, FillOp, Op, RawArray, ReduceOp, Reply, ShapeOp, UnaryOp,
};
use crate::construct::{BuildPlan, BuildTask};
use crate::describe::{DescribePlan, DescribeTask};
use crate::dtype::Dtype;
use crate::error::{check, Error};
use crate::full::{FullPlan, FullTask};
use crate::item::ItemTask;
use crate::op::{OpPlan, OpTask};
use crate::query::{
    CountPlan, CountTask, DtypeTask, EvalTask, LayoutTask, ShapeTask, StridesTask,
};
use crate::read::{ReadPlan, ReadTask};
use crate::shape::{product, product_fits, ShapeError};
use crate::stream::Stream;
use crate::task::Task;
use crate::to_vec::ToVecTask;

verus! {

/// An N-dimensional MLX array: the handle that MLX knows it by, which the value owns.
///
/// Not `Send` and not `Sync`, deliberately: evaluating an array writes to the graph nodes that its
/// operands also own.
pub struct Array {
    raw: RawArray,
    thread_bound: PhantomData<Rc<()>>,
}

impl Array {
    /// The handle.
    pub closed spec fn raw(&self) -> RawArray {
        self.raw
    }

    /// Takes ownership of a handle.
    pub(crate) fn from_raw(raw: RawArray) -> (array: Array)
        ensures
            array.raw() == raw,
    {
        Array { raw, thread_bound: PhantomData }
    }

    /// The handle. The array keeps ownership of it.
    pub fn as_raw(&self) -> (raw: RawArray)
        ensures
            raw == self.raw(),
    {
        self.raw
    }

    /// Wraps what an operation left: an array if the status is zero, and otherwise the error, with
    /// the handle that is now of no use and has to be freed.
    pub(crate) fn from_op(out: RawArray, status: i32, message: String) -> (result: Result<
        Array,
        (RawArray, Error),
    >)
        ensures
            match result {
                Ok(array) => status == 0 && array.raw() == out,
                Err((unused, error)) => status != 0 && unused == out && error@ == message@,
            },
    {
        match check(status, message) {
            Ok(_) => Ok(Array::from_raw(out)),
            Err(error) => Err((out, error)),
        }
    }

    /// Builds an array from a slice of values with the given shape, in row-major order.
    ///
    /// `dtype` is the element type that `T` stands for. The values have to fill the shape exactly.
    pub fn from_slice<'a, T: Copy>(data: &'a [T], dtype: Dtype, shape: &'a [i32]) -> (result:
        Result<BuildTask<'a, T>, ShapeError>)
        requires
            shape@.len() <= i32::MAX,
        ensures
            match result {
                Ok(task) => {
                    &&& product_fits(shape@)
                    &&& product(shape@) == data@.len()
                    &&& task.plan() == (BuildPlan::Slice { data, dtype, shape })
                    &&& task.replies() == Seq::<Reply<T>>::empty()
                },
                Err(ShapeError::Mismatch { len, product: p }) => {
                    &&& product_fits(shape@)
                    &&& product(shape@) != data@.len()
                    &&& len == data@.len()
                    &&& p == product(shape@)
                },
                Err(ShapeError::Overflow) => !product_fits(shape@),
            },
    {
        BuildTask::from_slice(data, dtype, shape)
    }

    /// Builds a 0-dimensional array that holds a single value of element type `dtype`.
    pub fn from_scalar<'a, T: Copy>(value: T, dtype: Dtype) -> (task: BuildTask<'a, T>)
        ensures
            task.plan() == (BuildPlan::Scalar { value, dtype }),
            task.replies() == Seq::<Reply<T>>::empty(),
    {
        BuildTask::from_scalar(value, dtype)
    }

    /// An array of `shape` filled with zeros of element type `dtype`.
    pub fn zeros<'a>(shape: &'a [i32], dtype: Dtype, stream: &'a Stream) -> (task: OpTask<'a, ()>)
        ensures
            task.plan() == (OpPlan {
                op: Op::Fill { op: FillOp::Zeros, shape: ffi_list(shape), dtype: dtype.code() },
                stream: stream.raw(),
            }),
            task.replies() == Seq::<Reply<()>>::empty(),
    {
        Array::fill_op(shape, dtype, stream, FillOp::Zeros)
    }

    /// An array of `shape` filled with ones of element type `dtype`.
    pub fn ones<'a>(shape: &'a [i32], dtype: Dtype, stream: &'a Stream) -> (task: OpTask<'a, ()>)
        ensures
            task.plan() == (OpPlan {
                op: Op::Fill { op: FillOp::Ones, shape: ffi_list(shape), dtype: dtype.code() },
                stream: stream.raw(),
            }),
            task.replies() == Seq::<Reply<()>>::empty(),
    {
        Array::fill_op(shape, dtype, stream, FillOp::Ones)
    }

    /// An array of `shape` filled with `value`, of element type `dtype`.
    pub fn full<'a, T: Copy>(shape: &'a [i32], value: T, dtype: Dtype, stream: &'a Stream) -> (task:
        FullTask<'a, T>)
        ensures
            task.plan() == (FullPlan { shape, value, dtype, stream: stream.raw() }),
            task.replies() == Seq::<Reply<T>>::empty(),
    {
        FullTask::new(FullPlan { shape, value, dtype, stream: stream.as_raw() })
    }

    /// Values from `start` (inclusive) to `stop` (exclusive), stepping by `step`, of element type
    /// `dtype`.
    ///
    /// The three numbers are the bit patterns of `f64` values.
    pub fn arange<'a>(start: u64, stop: u64, step: u64, dtype: Dtype, stream: &'a Stream) -> (task:
        OpTask<'a, ()>)
        ensures
            task.plan() == (OpPlan {
                op: Op::Arange { start, stop, step, dtype: dtype.code() },
                stream: stream.raw(),
            }),
            task.replies() == Seq::<Reply<()>>::empty(),
    {
        let op = Op::Arange { start, stop, step, dtype: dtype.as_raw() };
        OpTask::new(op, stream.as_raw())
    }

    /// Total number of elements.
    pub fn size<'a>(&'a self) -> (task: CountTask<'a, ()>)
        ensures
            task.plan() == (CountPlan::Size { array: self.raw() }),
            task.replies() == Seq::<Reply<()>>::empty(),
    {
        CountTask::new(CountPlan::Size { array: self.raw })
    }

    /// Number of dimensions.
    pub fn ndim<'a>(&'a self) -> (task: CountTask<'a, ()>)
        ensures
            task.plan() == (CountPlan::Ndim { array: self.raw() }),
            task.replies() == Seq::<Reply<()>>::empty(),
    {
        CountTask::new(CountPlan::Ndim { array: self.raw })
    }

    /// Shape of the array.
    pub fn shape<'a>(&'a self) -> (task: ShapeTask<'a, ()>)
        ensures
            task.plan() == self.raw(),
            task.replies() == Seq::<Reply<()>>::empty(),
    {
        ShapeTask::new(self.raw)
    }

    /// Element type of the array.
    ///
    /// MLX decides this itself: constructors take it from the values, but operations promote, and
    /// comparisons always give [`Dtype::Bool`].
    pub fn dtype<'a>(&'a self) -> (task: DtypeTask<'a, ()>)
        ensures
            task.plan() == self.raw(),
            task.replies() == Seq::<Reply<()>>::empty(),
    {
        DtypeTask::new(self.raw)
    }

    /// Strides of the array, in elements (not bytes), one per dimension.
    pub fn strides<'a>(&'a self) -> (task: StridesTask<'a, ()>)
        ensures
            task.plan() == self.raw(),
            task.replies() == Seq::<Reply<()>>::empty(),
    {
        StridesTask::new(self.raw)
    }

    /// Whether the array is laid out row-major (C-order) contiguously.
    ///
    /// Asks for shape and strides, which reflect the real layout once the array is evaluated.
    pub fn is_row_contiguous<'a>(&'a self) -> (task: LayoutTask<'a, ()>)
        ensures
            task.plan() == self.raw(),
            task.replies() == Seq::<Reply<()>>::empty(),
    {
        LayoutTask::new(self.raw)
    }

    /// Forces evaluation of this array.
    ///
    /// MLX is lazy: operations build a graph and only compute when the result is needed.
    pub fn eval<'a>(&'a self) -> (task: EvalTask<'a, ()>)
        ensures
            task.plan() == self.raw(),
            task.replies() == Seq::<Reply<()>>::empty(),
    {
        EvalTask::new(self.raw)
    }

    /// Reads the value of a single-element array. Evaluates the array first.
    pub fn item<'a, T: Copy>(&'a self) -> (task: ItemTask<'a, T>)
        ensures
            task.plan() == self.raw(),
            task.replies() == Seq::<Reply<T>>::empty(),
    {
        ItemTask::new(self.raw)
    }

    /// Copies the array's elements, in logical (row-major) order, if their type is `dtype`, which
    /// `T` stands for. Evaluates the array first.
    ///
    /// Row-contiguous arrays are read directly from their storage buffer; others are first
    /// materialized into a row-contiguous copy.
    pub fn to_vec<'a, T: Copy>(&'a self, dtype: Dtype) -> (task: ToVecTask<'a, T>)
        ensures
            task.plan() == (ReadPlan { array: self.raw(), dtype }),
            task.replies() == Seq::<Reply<T>>::empty(),
    {
        ToVecTask::new(self.raw, dtype)
    }

    /// Copies the storage buffer of an evaluated, row-contiguous array, if its elements are of type
    /// `dtype`, which `T` stands for.
    pub fn read_buffer<'a, T: Copy>(&'a self, dtype: Dtype) -> (task: ReadTask<'a, T>)
        ensures
            task.plan() == (ReadPlan { array: self.raw(), dtype }),
            task.replies() == Seq::<Reply<T>>::empty(),
    {
        ReadTask::new(ReadPlan { array: self.raw, dtype })
    }

    /// Converts the elements to the type `dtype`.
    pub fn astype<'a>(&'a self, dtype: Dtype, stream: &'a Stream) -> (task: OpTask<'a, ()>)
        ensures
            task.plan() == (OpPlan {
                op: Op::Astype { a: self.raw(), dtype: dtype.code() },
                stream: stream.raw(),
            }),
            task.replies() == Seq::<Reply<()>>::empty(),
    {
        let op = Op::Astype { a: self.raw, dtype: dtype.as_raw() };
        OpTask::new(op, stream.as_raw())
    }

    /// Returns a row-contiguous copy (or the same array if already dense).
    pub fn contiguous<'a>(&'a self, stream: &'a Stream) -> (task: OpTask<'a, ()>)
        ensures
            task.plan() == (OpPlan {
                op: Op::Contiguous { a: self.raw(), allow_col_major: false },
                stream: stream.raw(),
            }),
            task.replies() == Seq::<Reply<()>>::empty(),
    {
        let op = Op::Contiguous { a: self.raw, allow_col_major: false };
        OpTask::new(op, stream.as_raw())
    }

    /// Elementwise addition: `self + other`.
    pub fn add<'a>(&'a self, other: &'a Array, stream: &'a Stream) -> (task: OpTask<'a, ()>)
        ensures
            task.plan() == (OpPlan {
                op: Op::Binary { op: BinaryOp::Add, a: self.raw(), b: other.raw() },
                stream: stream.raw(),
            }),
            task.replies() == Seq::<Reply<()>>::empty(),
    {
        self.binary_op(other, stream, BinaryOp::Add)
    }

    /// Elementwise subtraction: `self - other`.
    pub fn subtract<'a>(&'a self, other: &'a Array, stream: &'a Stream) -> (task: OpTask<'a, ()>)
        ensures
            task.plan() == (OpPlan {
                op: Op::Binary { op: BinaryOp::Subtract, a: self.raw(), b: other.raw() },
                stream: stream.raw(),
            }),
            task.replies() == Seq::<Reply<()>>::empty(),
    {
        self.binary_op(other, stream, BinaryOp::Subtract)
    }

    /// Elementwise multiplication: `self * other`.
    pub fn multiply<'a>(&'a self, other: &'a Array, stream: &'a Stream) -> (task: OpTask<'a, ()>)
        ensures
            task.plan() == (OpPlan {
                op: Op::Binary { op: BinaryOp::Multiply, a: self.raw(), b: other.raw() },
                stream: stream.raw(),
            }),
            task.replies() == Seq::<Reply<()>>::empty(),
    {
        self.binary_op(other, stream, BinaryOp::Multiply)
    }

    /// Elementwise division: `self / other`.
    pub fn divide<'a>(&'a self, other: &'a Array, stream: &'a Stream) -> (task: OpTask<'a, ()>)
        ensures
            task.plan() == (OpPlan {
                op: Op::Binary { op: BinaryOp::Divide, a: self.raw(), b: other.raw() },
                stream: stream.raw(),
            }),
            task.replies() == Seq::<Reply<()>>::empty(),
    {
        self.binary_op(other, stream, BinaryOp::Divide)
    }

    /// Elementwise power: `self ** other`.
    pub fn power<'a>(&'a self, other: &'a Array, stream: &'a Stream) -> (task: OpTask<'a, ()>)
        ensures
            task.plan() == (OpPlan {
                op: Op::Binary { op: BinaryOp::Power, a: self.raw(), b: other.raw() },
                stream: stream.raw(),
            }),
            task.replies() == Seq::<Reply<()>>::empty(),
    {
        self.binary_op(other, stream, BinaryOp::Power)
    }

    /// Elementwise maximum of two arrays.
    pub fn maximum<'a>(&'a self, other: &'a Array, stream: &'a Stream) -> (task: OpTask<'a, ()>)
        ensures
            task.plan() == (OpPlan {
                op: Op::Binary { op: BinaryOp::Maximum, a: self.raw(), b: other.raw() },
                stream: stream.raw(),
            }),
            task.replies() == Seq::<Reply<()>>::empty(),
    {
        self.binary_op(other, stream, BinaryOp::Maximum)
    }

    /// Elementwise minimum of two arrays.
    pub fn minimum<'a>(&'a self, other: &'a Array, stream: &'a Stream) -> (task: OpTask<'a, ()>)
        ensures
            task.plan() == (OpPlan {
                op: Op::Binary { op: BinaryOp::Minimum, a: self.raw(), b: other.raw() },
                stream: stream.raw(),
            }),
            task.replies() == Seq::<Reply<()>>::empty(),
    {
        self.binary_op(other, stream, BinaryOp::Minimum)
    }

    /// Elementwise `self == other`, as a `bool` array.
    ///
    /// Like the arithmetic operations this spreads a smaller operand over a larger one. For the
    /// answer about the arrays as a whole, see [`array_equal`](Array::array_equal).
    pub fn equal<'a>(&'a self, other: &'a Array, stream: &'a Stream) -> (task: OpTask<'a, ()>)
        ensures
            task.plan() == (OpPlan {
                op: Op::Binary { op: BinaryOp::Equal, a: self.raw(), b: other.raw() },
                stream: stream.raw(),
            }),
            task.replies() == Seq::<Reply<()>>::empty(),
    {
        self.binary_op(other, stream, BinaryOp::Equal)
    }

    /// Elementwise `self != other`, as a `bool` array.
    pub fn not_equal<'a>(&'a self, other: &'a Array, stream: &'a Stream) -> (task: OpTask<'a, ()>)
        ensures
            task.plan() == (OpPlan {
                op: Op::Binary { op: BinaryOp::NotEqual, a: self.raw(), b: other.raw() },
                stream: stream.raw(),
            }),
            task.replies() == Seq::<Reply<()>>::empty(),
    {
        self.binary_op(other, stream, BinaryOp::NotEqual)
    }

    /// Elementwise `self > other`, as a `bool` array.
    pub fn greater<'a>(&'a self, other: &'a Array, stream: &'a Stream) -> (task: OpTask<'a, ()>)
        ensures
            task.plan() == (OpPlan {
                op: Op::Binary { op: BinaryOp::Greater, a: self.raw(), b: other.raw() },
                stream: stream.raw(),
            }),
            task.replies() == Seq::<Reply<()>>::empty(),
    {
        self.binary_op(other, stream, BinaryOp::Greater)
    }

    /// Elementwise `self >= other`, as a `bool` array.
    pub fn greater_equal<'a>(
        &'a self,
        other: &'a Array,
        stream: &'a Stream,
    ) -> (task: OpTask<'a, ()>)
        ensures
            task.plan() == (OpPlan {
                op: Op::Binary { op: BinaryOp::GreaterEqual, a: self.raw(), b: other.raw() },
                stream: stream.raw(),
            }),
            task.replies() == Seq::<Reply<()>>::empty(),
    {
        self.binary_op(other, stream, BinaryOp::GreaterEqual)
    }

    /// Elementwise `self < other`, as a `bool` array.
    pub fn less<'a>(&'a self, other: &'a Array, stream: &'a Stream) -> (task: OpTask<'a, ()>)
        ensures
            task.plan() == (OpPlan {
                op: Op::Binary { op: BinaryOp::Less, a: self.raw(), b: other.raw() },
                stream: stream.raw(),
            }),
            task.replies() == Seq::<Reply<()>>::empty(),
    {
        self.binary_op(other, stream, BinaryOp::Less)
    }

    /// Elementwise `self <= other`, as a `bool` array.
    pub fn less_equal<'a>(&'a self, other: &'a Array, stream: &'a Stream) -> (task: OpTask<'a, ()>)
        ensures
            task.plan() == (OpPlan {
                op: Op::Binary { op: BinaryOp::LessEqual, a: self.raw(), b: other.raw() },
                stream: stream.raw(),
            }),
            task.replies() == Seq::<Reply<()>>::empty(),
    {
        self.binary_op(other, stream, BinaryOp::LessEqual)
    }

    /// Elementwise logical and, as a `bool` array. Operands that are not `bool` are compared with
    /// zero first.
    pub fn logical_and<'a>(&'a self, other: &'a Array, stream: &'a Stream) -> (task: OpTask<'a, ()>)
        ensures
            task.plan() == (OpPlan {
                op: Op::Binary { op: BinaryOp::LogicalAnd, a: self.raw(), b: other.raw() },
                stream: stream.raw(),
            }),
            task.replies() == Seq::<Reply<()>>::empty(),
    {
        self.binary_op(other, stream, BinaryOp::LogicalAnd)
    }

    /// Elementwise logical or, as a `bool` array.
    pub fn logical_or<'a>(&'a self, other: &'a Array, stream: &'a Stream) -> (task: OpTask<'a, ()>)
        ensures
            task.plan() == (OpPlan {
                op: Op::Binary { op: BinaryOp::LogicalOr, a: self.raw(), b: other.raw() },
                stream: stream.raw(),
            }),
            task.replies() == Seq::<Reply<()>>::empty(),
    {
        self.binary_op(other, stream, BinaryOp::LogicalOr)
    }

    /// Matrix multiplication: `self @ other`.
    ///
    /// Contracts the last axis of `self` against the second-to-last of `other`. A 1-dimensional
    /// operand is treated as a matrix and the added axis is removed from the result; leading axes
    /// beyond the last two are batch dimensions.
    pub fn matmul<'a>(&'a self, other: &'a Array, stream: &'a Stream) -> (task: OpTask<'a, ()>)
        ensures
            task.plan() == (OpPlan {
                op: Op::Binary { op: BinaryOp::Matmul, a: self.raw(), b: other.raw() },
                stream: stream.raw(),
            }),
            task.replies() == Seq::<Reply<()>>::empty(),
    {
        self.binary_op(other, stream, BinaryOp::Matmul)
    }

    /// Elementwise square root.
    pub fn sqrt<'a>(&'a self, stream: &'a Stream) -> (task: OpTask<'a, ()>)
        ensures
            task.plan() == (OpPlan {
                op: Op::Unary { op: UnaryOp::Sqrt, a: self.raw() },
                stream: stream.raw(),
            }),
            task.replies() == Seq::<Reply<()>>::empty(),
    {
        self.unary_op(stream, UnaryOp::Sqrt)
    }

    /// Elementwise exponential.
    pub fn exp<'a>(&'a self, stream: &'a Stream) -> (task: OpTask<'a, ()>)
        ensures
            task.plan() == (OpPlan {
                op: Op::Unary { op: UnaryOp::Exp, a: self.raw() },
                stream: stream.raw(),
            }),
            task.replies() == Seq::<Reply<()>>::empty(),
    {
        self.unary_op(stream, UnaryOp::Exp)
    }

    /// Elementwise absolute value.
    pub fn abs<'a>(&'a self, stream: &'a Stream) -> (task: OpTask<'a, ()>)
        ensures
            task.plan() == (OpPlan {
                op: Op::Unary { op: UnaryOp::Abs, a: self.raw() },
                stream: stream.raw(),
            }),
            task.replies() == Seq::<Reply<()>>::empty(),
    {
        self.unary_op(stream, UnaryOp::Abs)
    }

    /// Elementwise negation.
    pub fn negative<'a>(&'a self, stream: &'a Stream) -> (task: OpTask<'a, ()>)
        ensures
            task.plan() == (OpPlan {
                op: Op::Unary { op: UnaryOp::Negative, a: self.raw() },
                stream: stream.raw(),
            }),
            task.replies() == Seq::<Reply<()>>::empty(),
    {
        self.unary_op(stream, UnaryOp::Negative)
    }

    /// Elementwise natural logarithm.
    pub fn log<'a>(&'a self, stream: &'a Stream) -> (task: OpTask<'a, ()>)
        ensures
            task.plan() == (OpPlan {
                op: Op::Unary { op: UnaryOp::Log, a: self.raw() },
                stream: stream.raw(),
            }),
            task.replies() == Seq::<Reply<()>>::empty(),
    {
        self.unary_op(stream, UnaryOp::Log)
    }

    /// Elementwise sine.
    pub fn sin<'a>(&'a self, stream: &'a Stream) -> (task: OpTask<'a, ()>)
        ensures
            task.plan() == (OpPlan {
                op: Op::Unary { op: UnaryOp::Sin, a: self.raw() },
                stream: stream.raw(),
            }),
            task.replies() == Seq::<Reply<()>>::empty(),
    {
        self.unary_op(stream, UnaryOp::Sin)
    }

    /// Elementwise cosine.
    pub fn cos<'a>(&'a self, stream: &'a Stream) -> (task: OpTask<'a, ()>)
        ensures
            task.plan() == (OpPlan {
                op: Op::Unary { op: UnaryOp::Cos, a: self.raw() },
                stream: stream.raw(),
            }),
            task.replies() == Seq::<Reply<()>>::empty(),
    {
        self.unary_op(stream, UnaryOp::Cos)
    }

    /// Elementwise square.
    pub fn square<'a>(&'a self, stream: &'a Stream) -> (task: OpTask<'a, ()>)
        ensures
            task.plan() == (OpPlan {
                op: Op::Unary { op: UnaryOp::Square, a: self.raw() },
                stream: stream.raw(),
            }),
            task.replies() == Seq::<Reply<()>>::empty(),
    {
        self.unary_op(stream, UnaryOp::Square)
    }

    /// Elementwise hyperbolic tangent.
    pub fn tanh<'a>(&'a self, stream: &'a Stream) -> (task: OpTask<'a, ()>)
        ensures
            task.plan() == (OpPlan {
                op: Op::Unary { op: UnaryOp::Tanh, a: self.raw() },
                stream: stream.raw(),
            }),
            task.replies() == Seq::<Reply<()>>::empty(),
    {
        self.unary_op(stream, UnaryOp::Tanh)
    }

    /// Elementwise logical negation, as a `bool` array.
    pub fn logical_not<'a>(&'a self, stream: &'a Stream) -> (task: OpTask<'a, ()>)
        ensures
            task.plan() == (OpPlan {
                op: Op::Unary { op: UnaryOp::LogicalNot, a: self.raw() },
                stream: stream.raw(),
            }),
            task.replies() == Seq::<Reply<()>>::empty(),
    {
        self.unary_op(stream, UnaryOp::LogicalNot)
    }

    /// Reverses the order of all axes (a full transpose).
    pub fn transpose<'a>(&'a self, stream: &'a Stream) -> (task: OpTask<'a, ()>)
        ensures
            task.plan() == (OpPlan {
                op: Op::Unary { op: UnaryOp::Transpose, a: self.raw() },
                stream: stream.raw(),
            }),
            task.replies() == Seq::<Reply<()>>::empty(),
    {
        self.unary_op(stream, UnaryOp::Transpose)
    }

    /// Removes all axes of length 1.
    pub fn squeeze<'a>(&'a self, stream: &'a Stream) -> (task: OpTask<'a, ()>)
        ensures
            task.plan() == (OpPlan {
                op: Op::Unary { op: UnaryOp::Squeeze, a: self.raw() },
                stream: stream.raw(),
            }),
            task.replies() == Seq::<Reply<()>>::empty(),
    {
        self.unary_op(stream, UnaryOp::Squeeze)
    }

    /// Whether the two arrays have the same shape and equal elements, as a 0-dimensional `bool`
    /// array. With `equal_nan` two NaNs in the same position count as equal.
    pub fn array_equal<'a>(
        &'a self,
        other: &'a Array,
        equal_nan: bool,
        stream: &'a Stream,
    ) -> (task: OpTask<'a, ()>)
        ensures
            task.plan() == (OpPlan {
                op: Op::ArrayEqual { a: self.raw(), b: other.raw(), equal_nan },
                stream: stream.raw(),
            }),
            task.replies() == Seq::<Reply<()>>::empty(),
    {
        let op = Op::ArrayEqual { a: self.raw, b: other.raw, equal_nan };
        OpTask::new(op, stream.as_raw())
    }

    /// Sum of all elements.
    ///
    /// Without `keepdims` the result has no dimensions.
    pub fn sum<'a>(&'a self, keepdims: bool, stream: &'a Stream) -> (task: OpTask<'a, ()>)
        ensures
            task.plan() == (OpPlan {
                op: Op::Reduce { op: ReduceOp::Sum, a: self.raw(), keepdims },
                stream: stream.raw(),
            }),
            task.replies() == Seq::<Reply<()>>::empty(),
    {
        self.reduce_op(keepdims, stream, ReduceOp::Sum)
    }

    /// Mean of all elements.
    ///
    /// Without `keepdims` the result has no dimensions.
    pub fn mean<'a>(&'a self, keepdims: bool, stream: &'a Stream) -> (task: OpTask<'a, ()>)
        ensures
            task.plan() == (OpPlan {
                op: Op::Reduce { op: ReduceOp::Mean, a: self.raw(), keepdims },
                stream: stream.raw(),
            }),
            task.replies() == Seq::<Reply<()>>::empty(),
    {
        self.reduce_op(keepdims, stream, ReduceOp::Mean)
    }

    /// Maximum of all elements.
    ///
    /// Without `keepdims` the result has no dimensions.
    pub fn max<'a>(&'a self, keepdims: bool, stream: &'a Stream) -> (task: OpTask<'a, ()>)
        ensures
            task.plan() == (OpPlan {
                op: Op::Reduce { op: ReduceOp::Max, a: self.raw(), keepdims },
                stream: stream.raw(),
            }),
            task.replies() == Seq::<Reply<()>>::empty(),
    {
        self.reduce_op(keepdims, stream, ReduceOp::Max)
    }

    /// Minimum of all elements.
    ///
    /// Without `keepdims` the result has no dimensions.
    pub fn min<'a>(&'a self, keepdims: bool, stream: &'a Stream) -> (task: OpTask<'a, ()>)
        ensures
            task.plan() == (OpPlan {
                op: Op::Reduce { op: ReduceOp::Min, a: self.raw(), keepdims },
                stream: stream.raw(),
            }),
            task.replies() == Seq::<Reply<()>>::empty(),
    {
        self.reduce_op(keepdims, stream, ReduceOp::Min)
    }

    /// Product of all elements.
    ///
    /// Without `keepdims` the result has no dimensions.
    pub fn prod<'a>(&'a self, keepdims: bool, stream: &'a Stream) -> (task: OpTask<'a, ()>)
        ensures
            task.plan() == (OpPlan {
                op: Op::Reduce { op: ReduceOp::Prod, a: self.raw(), keepdims },
                stream: stream.raw(),
            }),
            task.replies() == Seq::<Reply<()>>::empty(),
    {
        self.reduce_op(keepdims, stream, ReduceOp::Prod)
    }

    /// Whether every element is true (nonzero), as a `bool` array.
    ///
    /// Without `keepdims` the result has no dimensions.
    pub fn all<'a>(&'a self, keepdims: bool, stream: &'a Stream) -> (task: OpTask<'a, ()>)
        ensures
            task.plan() == (OpPlan {
                op: Op::Reduce { op: ReduceOp::All, a: self.raw(), keepdims },
                stream: stream.raw(),
            }),
            task.replies() == Seq::<Reply<()>>::empty(),
    {
        self.reduce_op(keepdims, stream, ReduceOp::All)
    }

    /// Whether any element is true (nonzero), as a `bool` array.
    ///
    /// Without `keepdims` the result has no dimensions.
    pub fn any<'a>(&'a self, keepdims: bool, stream: &'a Stream) -> (task: OpTask<'a, ()>)
        ensures
            task.plan() == (OpPlan {
                op: Op::Reduce { op: ReduceOp::Any, a: self.raw(), keepdims },
                stream: stream.raw(),
            }),
            task.replies() == Seq::<Reply<()>>::empty(),
    {
        self.reduce_op(keepdims, stream, ReduceOp::Any)
    }

    /// Sum over the given axes.
    ///
    /// Without `keepdims` the reduced axes are removed; otherwise they are kept with length 1.
    pub fn sum_axes<'a>(
        &'a self,
        axes: &'a [i32],
        keepdims: bool,
        stream: &'a Stream,
    ) -> (task: OpTask<'a, ()>)
        ensures
            task.plan() == (OpPlan {
                op: Op::ReduceAxes {
                    op: ReduceOp::Sum,
                    a: self.raw(),
                    axes: ffi_list(axes),
                    keepdims,
                },
                stream: stream.raw(),
            }),
            task.replies() == Seq::<Reply<()>>::empty(),
    {
        self.reduce_axes_op(axes, keepdims, stream, ReduceOp::Sum)
    }

    /// Mean over the given axes.
    ///
    /// Without `keepdims` the reduced axes are removed; otherwise they are kept with length 1.
    pub fn mean_axes<'a>(
        &'a self,
        axes: &'a [i32],
        keepdims: bool,
        stream: &'a Stream,
    ) -> (task: OpTask<'a, ()>)
        ensures
            task.plan() == (OpPlan {
                op: Op::ReduceAxes {
                    op: ReduceOp::Mean,
                    a: self.raw(),
                    axes: ffi_list(axes),
                    keepdims,
                },
                stream: stream.raw(),
            }),
            task.replies() == Seq::<Reply<()>>::empty(),
    {
        self.reduce_axes_op(axes, keepdims, stream, ReduceOp::Mean)
    }

    /// Maximum over the given axes.
    ///
    /// Without `keepdims` the reduced axes are removed; otherwise they are kept with length 1.
    pub fn max_axes<'a>(
        &'a self,
        axes: &'a [i32],
        keepdims: bool,
        stream: &'a Stream,
    ) -> (task: OpTask<'a, ()>)
        ensures
            task.plan() == (OpPlan {
                op: Op::ReduceAxes {
                    op: ReduceOp::Max,
                    a: self.raw(),
                    axes: ffi_list(axes),
                    keepdims,
                },
                stream: stream.raw(),
            }),
            task.replies() == Seq::<Reply<()>>::empty(),
    {
        self.reduce_axes_op(axes, keepdims, stream, ReduceOp::Max)
    }

    /// Minimum over the given axes.
    ///
    /// Without `keepdims` the reduced axes are removed; otherwise they are kept with length 1.
    pub fn min_axes<'a>(
        &'a self,
        axes: &'a [i32],
        keepdims: bool,
        stream: &'a Stream,
    ) -> (task: OpTask<'a, ()>)
        ensures
            task.plan() == (OpPlan {
                op: Op::ReduceAxes {
                    op: ReduceOp::Min,
                    a: self.raw(),
                    axes: ffi_list(axes),
                    keepdims,
                },
                stream: stream.raw(),
            }),
            task.replies() == Seq::<Reply<()>>::empty(),
    {
        self.reduce_axes_op(axes, keepdims, stream, ReduceOp::Min)
    }

    /// Product over the given axes.
    ///
    /// Without `keepdims` the reduced axes are removed; otherwise they are kept with length 1.
    pub fn prod_axes<'a>(
        &'a self,
        axes: &'a [i32],
        keepdims: bool,
        stream: &'a Stream,
    ) -> (task: OpTask<'a, ()>)
        ensures
            task.plan() == (OpPlan {
                op: Op::ReduceAxes {
                    op: ReduceOp::Prod,
                    a: self.raw(),
                    axes: ffi_list(axes),
                    keepdims,
                },
                stream: stream.raw(),
            }),
            task.replies() == Seq::<Reply<()>>::empty(),
    {
        self.reduce_axes_op(axes, keepdims, stream, ReduceOp::Prod)
    }

    /// Whether every element is true (nonzero) over the given axes.
    ///
    /// Without `keepdims` the reduced axes are removed; otherwise they are kept with length 1.
    pub fn all_axes<'a>(
        &'a self,
        axes: &'a [i32],
        keepdims: bool,
        stream: &'a Stream,
    ) -> (task: OpTask<'a, ()>)
        ensures
            task.plan() == (OpPlan {
                op: Op::ReduceAxes {
                    op: ReduceOp::All,
                    a: self.raw(),
                    axes: ffi_list(axes),
                    keepdims,
                },
                stream: stream.raw(),
            }),
            task.replies() == Seq::<Reply<()>>::empty(),
    {
        self.reduce_axes_op(axes, keepdims, stream, ReduceOp::All)
    }

    /// Whether any element is true (nonzero) over the given axes.
    ///
    /// Without `keepdims` the reduced axes are removed; otherwise they are kept with length 1.
    pub fn any_axes<'a>(
        &'a self,
        axes: &'a [i32],
        keepdims: bool,
        stream: &'a Stream,
    ) -> (task: OpTask<'a, ()>)
        ensures
            task.plan() == (OpPlan {
                op: Op::ReduceAxes {
                    op: ReduceOp::Any,
                    a: self.raw(),
                    axes: ffi_list(axes),
                    keepdims,
                },
                stream: stream.raw(),
            }),
            task.replies() == Seq::<Reply<()>>::empty(),
    {
        self.reduce_axes_op(axes, keepdims, stream, ReduceOp::Any)
    }

    /// Returns a new array with the same data reinterpreted as `shape`.
    pub fn reshape<'a>(&'a self, shape: &'a [i32], stream: &'a Stream) -> (task: OpTask<'a, ()>)
        ensures
            task.plan() == (OpPlan {
                op: Op::Shape { op: ShapeOp::Reshape, a: self.raw(), shape: ffi_list(shape) },
                stream: stream.raw(),
            }),
            task.replies() == Seq::<Reply<()>>::empty(),
    {
        self.shape_op(shape, stream, ShapeOp::Reshape)
    }

    /// Broadcasts the array to `shape`.
    pub fn broadcast_to<'a>(
        &'a self,
        shape: &'a [i32],
        stream: &'a Stream,
    ) -> (task: OpTask<'a, ()>)
        ensures
            task.plan() == (OpPlan {
                op: Op::Shape { op: ShapeOp::BroadcastTo, a: self.raw(), shape: ffi_list(shape) },
                stream: stream.raw(),
            }),
            task.replies() == Seq::<Reply<()>>::empty(),
    {
        self.shape_op(shape, stream, ShapeOp::BroadcastTo)
    }

    /// Inserts a new axis of length 1 at position `axis`.
    pub fn expand_dims<'a>(&'a self, axis: i32, stream: &'a Stream) -> (task: OpTask<'a, ()>)
        ensures
            task.plan() == (OpPlan {
                op: Op::ExpandDims { a: self.raw(), axis },
                stream: stream.raw(),
            }),
            task.replies() == Seq::<Reply<()>>::empty(),
    {
        OpTask::new(Op::ExpandDims { a: self.raw, axis }, stream.as_raw())
    }

    /// MLX's description of the array.
    pub fn describe<'a>(&'a self) -> (task: DescribeTask<'a, ()>)
        ensures
            task.plan() == (DescribePlan::Array { array: self.raw() }),
            task.replies() == Seq::<Reply<()>>::empty(),
    {
        DescribeTask::new(DescribePlan::Array { array: self.raw })
    }

    /// Gives the array up: the call that frees its handle.
    pub fn release<'a>(self) -> (call: Call<'a, ()>)
        ensures
            call matches Call::FreeArray { array } && array == self.raw(),
    {
        Call::FreeArray { array: self.raw }
    }

    /// Shared by the constructors that fill a shape.
    fn fill_op<'a>(shape: &'a [i32], dtype: Dtype, stream: &'a Stream, op: FillOp) -> (task: OpTask<
        'a,
        (),
    >)
        ensures
            task.plan() == (OpPlan {
                op: Op::Fill { op, shape: ffi_list(shape), dtype: dtype.code() },
                stream: stream.raw(),
            }),
            task.replies() == Seq::<Reply<()>>::empty(),
    {
        let op = Op::Fill { op, shape: as_ffi_list(shape), dtype: dtype.as_raw() };
        OpTask::new(op, stream.as_raw())
    }

    /// Shared by the operations that take a shape.
    fn shape_op<'a>(
        &'a self,
        shape: &'a [i32],
        stream: &'a Stream,
        op: ShapeOp,
    ) -> (task: OpTask<'a, ()>)
        ensures
            task.plan() == (OpPlan {
                op: Op::Shape { op, a: self.raw(), shape: ffi_list(shape) },
                stream: stream.raw(),
            }),
            task.replies() == Seq::<Reply<()>>::empty(),
    {
        let op = Op::Shape { op, a: self.raw, shape: as_ffi_list(shape) };
        OpTask::new(op, stream.as_raw())
    }

    /// Shared by the operations on two arrays.
    fn binary_op<'a>(
        &'a self,
        other: &'a Array,
        stream: &'a Stream,
        op: BinaryOp,
    ) -> (task: OpTask<'a, ()>)
        ensures
            task.plan() == (OpPlan {
                op: Op::Binary { op, a: self.raw(), b: other.raw() },
                stream: stream.raw(),
            }),
            task.replies() == Seq::<Reply<()>>::empty(),
    {
        OpTask::new(Op::Binary { op, a: self.raw, b: other.raw }, stream.as_raw())
    }

    /// Shared by the operations on one array.
    fn unary_op<'a>(&'a self, stream: &'a Stream, op: UnaryOp) -> (task: OpTask<'a, ()>)
        ensures
            task.plan() == (OpPlan {
                op: Op::Unary { op, a: self.raw() },
                stream: stream.raw(),
            }),
            task.replies() == Seq::<Reply<()>>::empty(),
    {
        OpTask::new(Op::Unary { op, a: self.raw }, stream.as_raw())
    }

    /// Shared by the reductions over all axes.
    fn reduce_op<'a>(
        &'a self,
        keepdims: bool,
        stream: &'a Stream,
        op: ReduceOp,
    ) -> (task: OpTask<'a, ()>)
        ensures
            task.plan() == (OpPlan {
                op: Op::Reduce { op, a: self.raw(), keepdims },
                stream: stream.raw(),
            }),
            task.replies() == Seq::<Reply<()>>::empty(),
    {
        OpTask::new(Op::Reduce { op, a: self.raw, keepdims }, stream.as_raw())
    }

    /// Shared by the reductions over given axes.
    fn reduce_axes_op<'a>(
        &'a self,
        axes: &'a [i32],
        keepdims: bool,
        stream: &'a Stream,
        op: ReduceOp,
    ) -> (task: OpTask<'a, ()>)
        ensures
            task.plan() == (OpPlan {
                op: Op::ReduceAxes { op, a: self.raw(), axes: ffi_list(axes), keepdims },
                stream: stream.raw(),
            }),
            task.replies() == Seq::<Reply<()>>::empty(),
    {
        let op = Op::ReduceAxes { op, a: self.raw, axes: as_ffi_list(axes), keepdims };
        OpTask::new(op, stream.as_raw())
    }
}

} // verus!
