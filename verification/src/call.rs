//! The calls that the library asks of MLX's C interface, and the replies to them.
//!
//! A call holds plain values only. Whoever holds the interface performs it, and hands back the
//! reply.

use vstd::prelude::*;

use crate::dtype::Dtype;
use crate::shape::valid_shape;

verus! {

/// The handle of an array: the context pointer of an `mlx_array`, as a number.
#[derive(Clone, Copy, PartialEq, Eq, Structural, Debug)]
pub struct RawArray {
    pub ctx: usize,
}

/// The handle of a stream: the context pointer of an `mlx_stream`, as a number.
#[derive(Clone, Copy, PartialEq, Eq, Structural, Debug)]
pub struct RawStream {
    pub ctx: usize,
}

/// The handle of a device: the context pointer of an `mlx_device`, as a number.
#[derive(Clone, Copy, PartialEq, Eq, Structural, Debug)]
pub struct RawDevice {
    pub ctx: usize,
}

/// The handle of a string: the context pointer of an `mlx_string`, as a number.
#[derive(Clone, Copy, PartialEq, Eq, Structural, Debug)]
pub struct RawString {
    pub ctx: usize,
}

/// Operations on one array.
#[derive(Clone, Copy, PartialEq, Eq, Structural, Debug)]
pub enum UnaryOp {
    Abs,
    Cos,
    Exp,
    Log,
    LogicalNot,
    Negative,
    Sin,
    Sqrt,
    Square,
    Squeeze,
    Tanh,
    Transpose,
}

/// Operations on two arrays.
#[derive(Clone, Copy, PartialEq, Eq, Structural, Debug)]
pub enum BinaryOp {
    Add,
    Divide,
    Equal,
    Greater,
    GreaterEqual,
    Less,
    LessEqual,
    LogicalAnd,
    LogicalOr,
    Matmul,
    Maximum,
    Minimum,
    Multiply,
    NotEqual,
    Power,
    Subtract,
}

/// Reductions, over all axes or over given ones.
#[derive(Clone, Copy, PartialEq, Eq, Structural, Debug)]
pub enum ReduceOp {
    All,
    Any,
    Max,
    Mean,
    Min,
    Prod,
    Sum,
}

/// Constructors that fill a shape with one value.
#[derive(Clone, Copy, PartialEq, Eq, Structural, Debug)]
pub enum FillOp {
    Ones,
    Zeros,
}

/// Operations that give an array another shape.
#[derive(Clone, Copy, PartialEq, Eq, Structural, Debug)]
pub enum ShapeOp {
    BroadcastTo,
    Reshape,
}

/// An operation with its arguments, but for the result handle and the stream, which every
/// operation has.
///
/// Element types stand by their codes. A list of dimensions or axes is `None` where the C
/// interface gets a null pointer and the count zero; otherwise it gets the list's pointer and
/// length.
#[allow(inconsistent_fields)]
#[derive(Clone, Copy, Debug)]
pub enum Op<'a> {
    Unary { op: UnaryOp, a: RawArray },
    Binary { op: BinaryOp, a: RawArray, b: RawArray },
    Reduce { op: ReduceOp, a: RawArray, keepdims: bool },
    ReduceAxes { op: ReduceOp, a: RawArray, axes: Option<&'a [i32]>, keepdims: bool },
    Fill { op: FillOp, shape: Option<&'a [i32]>, dtype: u32 },
    Full { shape: Option<&'a [i32]>, vals: RawArray, dtype: u32 },
    /// The bounds and the step are the bit patterns of `f64` values.
    Arange { start: u64, stop: u64, step: u64, dtype: u32 },
    Shape { op: ShapeOp, a: RawArray, shape: Option<&'a [i32]> },
    Astype { a: RawArray, dtype: u32 },
    Contiguous { a: RawArray, allow_col_major: bool },
    ArrayEqual { a: RawArray, b: RawArray, equal_nan: bool },
    ExpandDims { a: RawArray, axis: i32 },
}

/// A call to MLX's C interface. Elements are of type `T`.
#[derive(Debug)]
pub enum Call<'a, T> {
    /// Makes sure that MLX hands its error messages over instead of ending the process.
    Install,
    /// `mlx_array_new`.
    NewArray,
    /// `mlx_array_new_data`, on a slice. Null pointers are `None`, as in [`Op`].
    NewData { data: Option<&'a [T]>, shape: Option<&'a [i32]>, dim: i32, dtype: u32 },
    /// `mlx_array_new_data`, on one value and with no dimensions.
    NewScalar { value: T, dtype: u32 },
    /// `mlx_array_free`.
    FreeArray { array: RawArray },
    /// The operation's own function, which gets the address of `out`.
    Invoke { out: RawArray, op: Op<'a>, stream: RawStream },
    /// `mlx_array_eval`.
    Eval { array: RawArray },
    /// `mlx_array_size`.
    Size { array: RawArray },
    /// `mlx_array_ndim`.
    Ndim { array: RawArray },
    /// `mlx_array_shape`, and a read of `ndim` dimensions through the pointer it returns.
    Shape { array: RawArray, ndim: usize },
    /// `mlx_array_strides`, and a read of `ndim` strides through the pointer it returns.
    Strides { array: RawArray, ndim: usize },
    /// `mlx_array_dtype`.
    Dtype { array: RawArray },
    /// The accessor of the value of a single-element array.
    Item { array: RawArray },
    /// The accessor of the storage buffer, and a copy of `len` elements from its start.
    Copy { array: RawArray, len: usize },
    /// `mlx_default_gpu_stream_new`.
    NewGpuStream,
    /// `mlx_default_cpu_stream_new`.
    NewCpuStream,
    /// `mlx_stream_new`.
    NewStream,
    /// `mlx_stream_free`.
    FreeStream { stream: RawStream },
    /// `mlx_device_new`.
    NewDevice,
    /// `mlx_device_free`.
    FreeDevice { device: RawDevice },
    /// `mlx_stream_get_device`, which gets the address of `device`.
    StreamDevice { device: RawDevice, stream: RawStream },
    /// `mlx_get_default_device`, which gets the address of `device`.
    DefaultDevice { device: RawDevice },
    /// `mlx_set_default_device`.
    SetDefaultDevice { device: RawDevice },
    /// `mlx_get_default_stream`, which gets the address of `stream`.
    DefaultStream { stream: RawStream, device: RawDevice },
    /// `mlx_set_default_stream`.
    SetDefaultStream { stream: RawStream },
    /// `mlx_string_new`.
    NewString,
    /// `mlx_array_tostring`, which gets the address of `string`.
    ArrayText { string: RawString, array: RawArray },
    /// `mlx_version`, which gets the address of `string`.
    Version { string: RawString },
    /// `mlx_string_data`, with the characters behind the pointer it returns.
    StringData { string: RawString },
    /// `mlx_string_free`.
    FreeString { string: RawString },
}

/// The reply to a [`Call`]. A handle whose address the call got is handed back as the call left
/// it.
#[derive(Debug)]
pub enum Reply<T> {
    /// The call was made, and says nothing that matters.
    Done,
    Array(RawArray),
    Stream(RawStream),
    Device(RawDevice),
    String(RawString),
    /// The status of an operation, its result handle, and the message that the error handler
    /// received during the call (empty if none).
    Status { status: i32, out: RawArray, message: String },
    Count(usize),
    Dims(Vec<i32>),
    Strides(Vec<usize>),
    Code(u32),
    Item(T),
    Elements(Vec<T>),
    Text(String),
}

/// The reply is of the kind that the call has.
pub open spec fn answers<T>(call: Call<T>, reply: Reply<T>) -> bool {
    match call {
        Call::Install
        | Call::FreeArray { .. }
        | Call::Eval { .. }
        | Call::FreeStream { .. }
        | Call::FreeDevice { .. }
        | Call::SetDefaultDevice { .. }
        | Call::SetDefaultStream { .. }
        | Call::FreeString { .. } => reply is Done,
        Call::NewArray | Call::NewData { .. } | Call::NewScalar { .. } => reply is Array,
        Call::Invoke { .. } => reply is Status,
        Call::Size { .. } | Call::Ndim { .. } => reply is Count,
        Call::Shape { ndim, .. } => reply matches Reply::Dims(dims) && dims@.len() == ndim
            && valid_shape(dims@),
        Call::Strides { ndim, .. } => reply matches Reply::Strides(strides) && strides@.len()
            == ndim,
        Call::Dtype { .. } => reply matches Reply::Code(code) && code <= Dtype::Complex64.code(),
        Call::Item { .. } => reply is Item,
        Call::Copy { len, .. } => reply matches Reply::Elements(elements) && elements@.len() == len,
        Call::NewGpuStream
        | Call::NewCpuStream
        | Call::NewStream
        | Call::DefaultStream { .. } => reply is Stream,
        Call::NewDevice | Call::StreamDevice { .. } | Call::DefaultDevice { .. } => reply is Device,
        Call::NewString | Call::ArrayText { .. } | Call::Version { .. } => reply is String,
        Call::StringData { .. } => reply is Text,
    }
}

/// A call takes any reply of its kind, whatever the reply holds: any handle, status and message,
/// any number, value and text, and any list that is as long as was asked for. Dimensions are not
/// negative, and a code is one of an element type.
pub proof fn any_reply_of_its_kind_is_taken<'a, T>(
    array: RawArray,
    op: Op<'a>,
    out: RawArray,
    stream: RawStream,
    device: RawDevice,
    string: RawString,
    n: usize,
    data: Option<&'a [T]>,
    shape: Option<&'a [i32]>,
    dim: i32,
    value: T,
    dtype: u32,
    reply: Reply<T>,
)
    ensures
        reply is Done ==> {
            &&& answers(Call::Install, reply)
            &&& answers(Call::FreeArray { array }, reply)
            &&& answers(Call::Eval { array }, reply)
            &&& answers(Call::FreeStream { stream }, reply)
            &&& answers(Call::FreeDevice { device }, reply)
            &&& answers(Call::SetDefaultDevice { device }, reply)
            &&& answers(Call::SetDefaultStream { stream }, reply)
            &&& answers(Call::FreeString { string }, reply)
        },
        reply is Array ==> {
            &&& answers(Call::NewArray, reply)
            &&& answers(Call::NewData { data, shape, dim, dtype }, reply)
            &&& answers(Call::NewScalar { value, dtype }, reply)
        },
        reply is Status ==> answers(Call::Invoke { out, op, stream }, reply),
        reply is Count ==> answers(Call::Size { array }, reply) && answers(
            Call::Ndim { array },
            reply,
        ),
        reply matches Reply::Dims(dims) ==> (answers(Call::Shape { array, ndim: n }, reply) <==> {
            &&& dims@.len() == n
            &&& forall|i: int| 0 <= i < dims@.len() ==> 0 <= #[trigger] dims@[i]
        }),
        reply matches Reply::Strides(strides) ==> (answers(Call::Strides { array, ndim: n }, reply)
            <==> strides@.len() == n),
        reply matches Reply::Code(code) ==> (answers(Call::Dtype { array }, reply) <==> exists|
            found: Dtype,
        | #[trigger] found.code() == code),
        reply is Item ==> answers(Call::Item { array }, reply),
        reply matches Reply::Elements(elements) ==> (answers(Call::Copy { array, len: n }, reply)
            <==> elements@.len() == n),
        reply is Stream ==> {
            &&& answers(Call::NewGpuStream, reply)
            &&& answers(Call::NewCpuStream, reply)
            &&& answers(Call::NewStream, reply)
            &&& answers(Call::DefaultStream { stream, device }, reply)
        },
        reply is Device ==> {
            &&& answers(Call::NewDevice, reply)
            &&& answers(Call::StreamDevice { device, stream }, reply)
            &&& answers(Call::DefaultDevice { device }, reply)
        },
        reply is String ==> {
            &&& answers(Call::NewString, reply)
            &&& answers(Call::ArrayText { string, array }, reply)
            &&& answers(Call::Version { string }, reply)
        },
        reply is Text ==> answers(Call::StringData { string }, reply),
{
    if let Reply::Code(code) = reply {
        if code <= Dtype::Complex64.code() {
            let found = if code == 0 {
                Dtype::Bool
            } else if code == 1 {
                Dtype::Uint8
            } else if code == 2 {
                Dtype::Uint16
            } else if code == 3 {
                Dtype::Uint32
            } else if code == 4 {
                Dtype::Uint64
            } else if code == 5 {
                Dtype::Int8
            } else if code == 6 {
                Dtype::Int16
            } else if code == 7 {
                Dtype::Int32
            } else if code == 8 {
                Dtype::Int64
            } else if code == 9 {
                Dtype::Float16
            } else if code == 10 {
                Dtype::Float32
            } else if code == 11 {
                Dtype::Float64
            } else if code == 12 {
                Dtype::Bfloat16
            } else {
                Dtype::Complex64
            };
            assert(found.code() == code);
        }
    }
}

/// How the C interface gets a list: null if it is empty, since the pointer of an empty slice
/// points nowhere.
pub open spec fn ffi_list<T>(list: &[T]) -> Option<&[T]> {
    if list@.len() == 0 {
        None
    } else {
        Some(list)
    }
}

/// Prepares a list for the C interface.
pub fn as_ffi_list<'a, T>(list: &'a [T]) -> (result: Option<&'a [T]>)
    ensures
        result == ffi_list(list),
{
    if list.len() == 0 {
        None
    } else {
        Some(list)
    }
}

} // verus!
