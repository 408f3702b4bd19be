//! The library at work, with a small stand-in for MLX behind it.
//!
//! The stand-in keeps to what MLX documents: handles come from it and go back to it exactly once,
//! a fresh result handle is null until an operation writes it, strides and buffers are there only
//! once an array is evaluated, views share a buffer, and a failure without an error handler ends
//! everything. It computes in `f64` and rounds to the element type.

use std::cell::RefCell;
use std::collections::HashMap;
use std::fmt;
use std::ops::{Add, AddAssign, Div, DivAssign, Mul, MulAssign, Neg, Sub, SubAssign};

use mlxcore::call::{
    BinaryOp, Call, FillOp, Op, RawArray, RawDevice, RawStream, RawString, ReduceOp, Reply, ShapeOp,
    UnaryOp,
};
use mlxcore::copy::ToVecError;
use mlxcore::item::NotScalar;
use mlxcore::layout::is_row_contiguous;
use mlxcore::operator::{
    array_op, assign_op, assign_scalar_op, neg, rebind, scalar_lhs_op, scalar_rhs_op, Arith,
    OperatorError,
};
use mlxcore::shape::{check_len, shape_product, ShapeError};
use mlxcore::task::{Step, Task};
use mlxcore::text::{append_decimal, append_signed};
use mlxcore::{version, Array, Dtype, Error, Stream};

/// A Rust type that stands for an element type of MLX.
trait Element: Copy + fmt::Debug {
    const DTYPE: Dtype;
    fn to_f64(self) -> f64;
    fn from_f64(value: f64) -> Self;
}

impl Element for f32 {
    const DTYPE: Dtype = Dtype::Float32;
    fn to_f64(self) -> f64 {
        self as f64
    }
    fn from_f64(value: f64) -> f32 {
        value as f32
    }
}

impl Element for f64 {
    const DTYPE: Dtype = Dtype::Float64;
    fn to_f64(self) -> f64 {
        self
    }
    fn from_f64(value: f64) -> f64 {
        value
    }
}

impl Element for i32 {
    const DTYPE: Dtype = Dtype::Int32;
    fn to_f64(self) -> f64 {
        self as f64
    }
    fn from_f64(value: f64) -> i32 {
        value as i32
    }
}

impl Element for u8 {
    const DTYPE: Dtype = Dtype::Uint8;
    fn to_f64(self) -> f64 {
        self as f64
    }
    fn from_f64(value: f64) -> u8 {
        value as u8
    }
}

impl Element for bool {
    const DTYPE: Dtype = Dtype::Bool;
    fn to_f64(self) -> f64 {
        if self {
            1.0
        } else {
            0.0
        }
    }
    fn from_f64(value: f64) -> bool {
        value != 0.0
    }
}

/// Tasks without elements.
impl Element for () {
    const DTYPE: Dtype = Dtype::Bool;
    fn to_f64(self) -> f64 {
        unreachable!()
    }
    fn from_f64(_value: f64) {
        unreachable!()
    }
}

/// What a value becomes in an element type.
fn rounded(code: u32, value: f64) -> f64 {
    if code == Dtype::Bool.as_raw() {
        if value != 0.0 {
            1.0
        } else {
            0.0
        }
    } else if code == Dtype::Float32.as_raw() {
        value as f32 as f64
    } else if code == Dtype::Float64.as_raw() {
        value
    } else {
        value.trunc()
    }
}

fn is_float(code: u32) -> bool {
    code == Dtype::Float32.as_raw() || code == Dtype::Float64.as_raw()
}

/// The element type of a result whose operands have these two.
fn promoted(a: u32, b: u32) -> u32 {
    match (is_float(a), is_float(b)) {
        (true, false) => a,
        (false, true) => b,
        _ => a.max(b),
    }
}

/// An array behind a handle.
#[derive(Clone, Debug)]
struct Value {
    dtype: u32,
    shape: Vec<i32>,
    strides: Vec<usize>,
    storage: Vec<f64>,
    evaluated: bool,
}

fn count(shape: &[i32]) -> usize {
    shape.iter().map(|&d| d as usize).product()
}

fn row_major(shape: &[i32]) -> Vec<usize> {
    (0..shape.len()).map(|i| count(&shape[i + 1..])).collect()
}

/// The coordinates of the element at position `rank` in row-major order.
fn coordinates(shape: &[i32], rank: usize) -> Vec<usize> {
    (0..shape.len())
        .map(|i| rank / count(&shape[i + 1..]) % shape[i] as usize)
        .collect()
}

impl Value {
    fn dense(dtype: u32, shape: &[i32], values: Vec<f64>) -> Value {
        let storage = values.into_iter().map(|v| rounded(dtype, v)).collect();
        Value { dtype, shape: shape.to_vec(), strides: row_major(shape), storage, evaluated: false }
    }

    fn at(&self, index: &[usize]) -> f64 {
        let place: usize = index.iter().zip(&self.strides).map(|(i, s)| i * s).sum();
        self.storage[place]
    }

    /// The elements in row-major order.
    fn logical(&self) -> Vec<f64> {
        (0..count(&self.shape)).map(|r| self.at(&coordinates(&self.shape, r))).collect()
    }

    /// The same elements, stretched over a shape.
    fn stretched(&self, shape: &[i32]) -> Result<Value, String> {
        let lead = shape.len().checked_sub(self.shape.len());
        let mut strides = vec![0; shape.len()];
        for (i, &dim) in self.shape.iter().enumerate() {
            let place = match lead {
                Some(lead) => lead + i,
                None => return Err(mismatch(&self.shape, shape)),
            };
            if dim == shape[place] {
                strides[place] = self.strides[i];
            } else if dim != 1 {
                return Err(mismatch(&self.shape, shape));
            }
        }
        Ok(Value { shape: shape.to_vec(), strides, evaluated: false, ..self.clone() })
    }
}

fn mismatch(a: &[i32], b: &[i32]) -> String {
    format!("[broadcast_shapes] Shapes {a:?} and {b:?} cannot be broadcast.")
}

/// The shape that two shapes stretch to.
fn common_shape(a: &[i32], b: &[i32]) -> Result<Vec<i32>, String> {
    let rank = a.len().max(b.len());
    let dim = |s: &[i32], i: usize| if i + s.len() < rank { 1 } else { s[i + s.len() - rank] };
    (0..rank)
        .map(|i| match (dim(a, i), dim(b, i)) {
            (x, y) if x == y => Ok(x),
            (1, y) => Ok(y),
            (x, 1) => Ok(x),
            _ => Err(mismatch(a, b)),
        })
        .collect()
}

fn elementwise(
    dtype: u32,
    a: &Value,
    b: &Value,
    f: impl Fn(f64, f64) -> f64,
) -> Result<Value, String> {
    let shape = common_shape(&a.shape, &b.shape)?;
    let (a, b) = (a.stretched(&shape)?.logical(), b.stretched(&shape)?.logical());
    let values = a.into_iter().zip(b).map(|(x, y)| f(x, y)).collect();
    Ok(Value::dense(dtype, &shape, values))
}

fn matrix_product(a: &Value, b: &Value) -> Result<Value, String> {
    let dtype = promoted(a.dtype, b.dtype);
    let mut sa = a.shape.clone();
    let mut sb = b.shape.clone();
    if a.shape.len() == 1 {
        sa.insert(0, 1);
    }
    if b.shape.len() == 1 {
        sb.push(1);
    }
    let (n, k) = (sa[sa.len() - 2], sa[sa.len() - 1]);
    let (k2, m) = (sb[sb.len() - 2], sb[sb.len() - 1]);
    if k != k2 {
        return Err(format!("[matmul] Last dimension of first input with shape {sa:?} must match."));
    }
    let batch = common_shape(&sa[..sa.len() - 2], &sb[..sb.len() - 2])?;
    let full = |tail: [i32; 2]| [batch.as_slice(), tail.as_slice()].concat();
    let left = Value::dense(a.dtype, &sa, a.logical()).stretched(&full([n, k]))?;
    let right = Value::dense(b.dtype, &sb, b.logical()).stretched(&full([k, m]))?;
    let shape = full([n, m]);
    let values = (0..count(&shape))
        .map(|r| {
            let index = coordinates(&shape, r);
            let last = index.len() - 1;
            (0..k as usize)
                .map(|i| {
                    let (mut x, mut y) = (index.clone(), index.clone());
                    x[last] = i;
                    y[last - 1] = i;
                    left.at(&x) * right.at(&y)
                })
                .sum()
        })
        .collect();
    let mut result = shape;
    if b.shape.len() == 1 {
        result.pop();
    }
    if a.shape.len() == 1 {
        result.remove(result.len() - if b.shape.len() == 1 { 1 } else { 2 });
    }
    Ok(Value::dense(dtype, &result, values))
}

fn reduced(op: ReduceOp, a: &Value, axes: &[usize], keepdims: bool) -> Value {
    let dtype = match op {
        ReduceOp::All | ReduceOp::Any => Dtype::Bool.as_raw(),
        ReduceOp::Mean if !is_float(a.dtype) => Dtype::Float32.as_raw(),
        _ => a.dtype,
    };
    let kept: Vec<i32> = (0..a.shape.len())
        .map(|i| if axes.contains(&i) { 1 } else { a.shape[i] })
        .collect();
    let mut groups: Vec<Vec<f64>> = vec![Vec::new(); count(&kept)];
    let strides = row_major(&kept);
    for (rank, value) in a.logical().into_iter().enumerate() {
        let index = coordinates(&a.shape, rank);
        let place: usize = (0..kept.len())
            .map(|i| if axes.contains(&i) { 0 } else { index[i] * strides[i] })
            .sum();
        groups[place].push(value);
    }
    let fold = |group: Vec<f64>| match op {
        ReduceOp::Sum => group.iter().sum(),
        ReduceOp::Mean => group.iter().sum::<f64>() / group.len() as f64,
        ReduceOp::Prod => group.iter().product(),
        ReduceOp::Max => group.iter().cloned().fold(f64::NEG_INFINITY, f64::max),
        ReduceOp::Min => group.iter().cloned().fold(f64::INFINITY, f64::min),
        ReduceOp::All => group.iter().all(|&v| v != 0.0).to_f64(),
        ReduceOp::Any => group.iter().any(|&v| v != 0.0).to_f64(),
    };
    let values = groups.into_iter().map(fold).collect();
    let shape: Vec<i32> = if keepdims {
        kept
    } else {
        (0..kept.len()).filter(|i| !axes.contains(i)).map(|i| kept[i]).collect()
    };
    Value::dense(dtype, &shape, values)
}

#[derive(Clone, Copy, Debug, PartialEq, Eq, Hash)]
enum Device {
    Cpu,
    Gpu,
}

/// A stream: its device and its index.
type Lane = (Device, i32);

struct State {
    installed: bool,
    next: usize,
    arrays: HashMap<usize, Value>,
    streams: HashMap<usize, Lane>,
    devices: HashMap<usize, Device>,
    strings: HashMap<usize, String>,
    default_device: Device,
    default_streams: HashMap<Device, Lane>,
    /// The names of the calls that were made.
    log: Vec<String>,
    /// The lanes that operations ran on.
    lanes: Vec<Lane>,
    /// The pointers to lists that operations got: null or a length.
    lists: Vec<Option<usize>>,
    /// Makes the next operation fail with this message.
    sabotage: Option<String>,
}

impl State {
    fn fresh(&mut self) -> usize {
        self.next += 16;
        self.next
    }

    fn array(&self, raw: RawArray) -> &Value {
        self.arrays.get(&raw.ctx).expect("an array handle that is in use")
    }

    fn lane(&self, raw: RawStream) -> Lane {
        *self.streams.get(&raw.ctx).expect("a stream handle that is in use")
    }

    fn device(&self, raw: RawDevice) -> Device {
        *self.devices.get(&raw.ctx).expect("a device handle that is in use")
    }

    fn string(&self, raw: RawString) -> &String {
        self.strings.get(&raw.ctx).expect("a string handle that is in use")
    }

    fn put_array(&mut self, value: Value) -> RawArray {
        let ctx = self.fresh();
        self.arrays.insert(ctx, value);
        RawArray { ctx }
    }

    fn put_stream(&mut self, lane: Lane) -> RawStream {
        let ctx = self.fresh();
        self.streams.insert(ctx, lane);
        RawStream { ctx }
    }

    fn list(&mut self, list: Option<&[i32]>) -> Vec<i32> {
        self.lists.push(list.map(|l| l.len()));
        list.unwrap_or(&[]).to_vec()
    }

    fn compute(&mut self, op: Op, stream: RawStream) -> Result<Value, String> {
        let lane = self.lane(stream);
        self.lanes.push(lane);
        let bool_code = Dtype::Bool.as_raw();
        let wide = Dtype::Float64.as_raw();
        let operands = match op {
            Op::Unary { a, .. }
            | Op::Reduce { a, .. }
            | Op::ReduceAxes { a, .. }
            | Op::Shape { a, .. }
            | Op::Astype { a, .. }
            | Op::Contiguous { a, .. }
            | Op::ExpandDims { a, .. } => vec![a],
            Op::Binary { a, b, .. } | Op::ArrayEqual { a, b, .. } => vec![a, b],
            Op::Full { vals, .. } => vec![vals],
            Op::Fill { .. } | Op::Arange { .. } => vec![],
        };
        if lane.0 == Device::Gpu && operands.iter().any(|&a| self.array(a).dtype == wide) {
            return Err("float64 is not supported on the GPU".to_string());
        }
        let result = match op {
            Op::Unary { op, a } => {
                let a = self.array(a).clone();
                let float = if is_float(a.dtype) { a.dtype } else { Dtype::Float32.as_raw() };
                let map = |dtype: u32, f: fn(f64) -> f64| {
                    Value::dense(dtype, &a.shape, a.logical().into_iter().map(f).collect())
                };
                match op {
                    UnaryOp::Abs => map(a.dtype, f64::abs),
                    UnaryOp::Cos => map(float, f64::cos),
                    UnaryOp::Exp => map(float, f64::exp),
                    UnaryOp::Log => map(float, f64::ln),
                    UnaryOp::LogicalNot => map(bool_code, |v| (v == 0.0).to_f64()),
                    UnaryOp::Negative => map(a.dtype, |v| -v),
                    UnaryOp::Sin => map(float, f64::sin),
                    UnaryOp::Sqrt => map(float, f64::sqrt),
                    UnaryOp::Square => map(a.dtype, |v| v * v),
                    UnaryOp::Tanh => map(float, f64::tanh),
                    UnaryOp::Squeeze => {
                        let shape: Vec<i32> = a.shape.iter().cloned().filter(|&d| d != 1).collect();
                        Value::dense(a.dtype, &shape, a.logical())
                    }
                    UnaryOp::Transpose => {
                        let mut view = a.clone();
                        view.shape.reverse();
                        view.strides.reverse();
                        view.evaluated = false;
                        view
                    }
                }
            }
            Op::Binary { op, a, b } => {
                let (a, b) = (self.array(a).clone(), self.array(b).clone());
                let dtype = promoted(a.dtype, b.dtype);
                let float = if is_float(dtype) { dtype } else { Dtype::Float32.as_raw() };
                match op {
                    BinaryOp::Add => elementwise(dtype, &a, &b, |x, y| x + y)?,
                    BinaryOp::Subtract => elementwise(dtype, &a, &b, |x, y| x - y)?,
                    BinaryOp::Multiply => elementwise(dtype, &a, &b, |x, y| x * y)?,
                    BinaryOp::Divide => elementwise(float, &a, &b, |x, y| x / y)?,
                    BinaryOp::Power => elementwise(dtype, &a, &b, f64::powf)?,
                    BinaryOp::Maximum => elementwise(dtype, &a, &b, f64::max)?,
                    BinaryOp::Minimum => elementwise(dtype, &a, &b, f64::min)?,
                    BinaryOp::Equal => elementwise(bool_code, &a, &b, |x, y| (x == y).to_f64())?,
                    BinaryOp::NotEqual => elementwise(bool_code, &a, &b, |x, y| (x != y).to_f64())?,
                    BinaryOp::Greater => elementwise(bool_code, &a, &b, |x, y| (x > y).to_f64())?,
                    BinaryOp::GreaterEqual => {
                        elementwise(bool_code, &a, &b, |x, y| (x >= y).to_f64())?
                    }
                    BinaryOp::Less => elementwise(bool_code, &a, &b, |x, y| (x < y).to_f64())?,
                    BinaryOp::LessEqual => {
                        elementwise(bool_code, &a, &b, |x, y| (x <= y).to_f64())?
                    }
                    BinaryOp::LogicalAnd => {
                        elementwise(bool_code, &a, &b, |x, y| (x != 0.0 && y != 0.0).to_f64())?
                    }
                    BinaryOp::LogicalOr => {
                        elementwise(bool_code, &a, &b, |x, y| (x != 0.0 || y != 0.0).to_f64())?
                    }
                    BinaryOp::Matmul => matrix_product(&a, &b)?,
                }
            }
            Op::Reduce { op, a, keepdims } => {
                let a = self.array(a);
                let axes: Vec<usize> = (0..a.shape.len()).collect();
                reduced(op, a, &axes, keepdims)
            }
            Op::ReduceAxes { op, a, axes, keepdims } => {
                let axes = self.list(axes);
                let a = self.array(a);
                let axes: Vec<usize> = axes.iter().map(|&i| i as usize).collect();
                reduced(op, a, &axes, keepdims)
            }
            Op::Fill { op, shape, dtype } => {
                let shape = self.list(shape);
                let value = match op {
                    FillOp::Ones => 1.0,
                    FillOp::Zeros => 0.0,
                };
                Value::dense(dtype, &shape, vec![value; count(&shape)])
            }
            Op::Full { shape, vals, dtype } => {
                let shape = self.list(shape);
                let vals = self.array(vals).stretched(&shape)?;
                Value::dense(dtype, &shape, vals.logical())
            }
            Op::Arange { start, stop, step, dtype } => {
                let start = f64::from_bits(start);
                let (stop, step) = (f64::from_bits(stop), f64::from_bits(step));
                let n = ((stop - start) / step).ceil().max(0.0) as usize;
                let values = (0..n).map(|i| start + step * i as f64).collect();
                Value::dense(dtype, &[n as i32], values)
            }
            Op::Shape { op, a, shape } => {
                let shape = self.list(shape);
                let a = self.array(a);
                match op {
                    ShapeOp::Reshape => {
                        if count(&shape) != count(&a.shape) {
                            return Err(format!("[reshape] Cannot reshape into {shape:?}."));
                        }
                        Value::dense(a.dtype, &shape, a.logical())
                    }
                    ShapeOp::BroadcastTo => a.stretched(&shape)?,
                }
            }
            Op::Astype { a, dtype } => {
                let a = self.array(a);
                Value::dense(dtype, &a.shape, a.logical())
            }
            Op::Contiguous { a, allow_col_major } => {
                assert!(!allow_col_major);
                let a = self.array(a);
                Value::dense(a.dtype, &a.shape, a.logical())
            }
            Op::ArrayEqual { a, b, equal_nan } => {
                let (a, b) = (self.array(a), self.array(b));
                let same = |(x, y): (f64, f64)| x == y || equal_nan && x.is_nan() && y.is_nan();
                let equal = a.shape == b.shape
                    && a.logical().into_iter().zip(b.logical()).all(same);
                Value::dense(bool_code, &[], vec![equal.to_f64()])
            }
            Op::ExpandDims { a, axis } => {
                let a = self.array(a);
                let mut shape = a.shape.clone();
                shape.insert(axis as usize, 1);
                Value::dense(a.dtype, &shape, a.logical())
            }
        };
        if lane.0 == Device::Gpu && result.dtype == wide {
            return Err("float64 is not supported on the GPU".to_string());
        }
        Ok(result)
    }
}

/// The stand-in, and the way into the library.
struct Mlx {
    state: RefCell<State>,
}

impl Mlx {
    fn new() -> Mlx {
        let default_streams =
            HashMap::from([(Device::Cpu, (Device::Cpu, 0)), (Device::Gpu, (Device::Gpu, 1))]);
        Mlx {
            state: RefCell::new(State {
                installed: false,
                next: 0,
                arrays: HashMap::new(),
                streams: HashMap::new(),
                devices: HashMap::new(),
                strings: HashMap::new(),
                default_device: Device::Gpu,
                default_streams,
                log: Vec::new(),
                lanes: Vec::new(),
                lists: Vec::new(),
                sabotage: None,
            }),
        }
    }

    fn perform<T: Element>(&self, call: Call<T>) -> Reply<T> {
        let mut state = self.state.borrow_mut();
        let s = &mut *state;
        let name = format!("{call:?}");
        let end = name.find(|c: char| !c.is_alphanumeric()).unwrap_or(name.len());
        s.log.push(name[..end].to_string());
        match call {
            Call::Install => {
                s.installed = true;
                Reply::Done
            }
            Call::NewArray => Reply::Array(RawArray { ctx: 0 }),
            Call::NewData { data, shape, dim, dtype } => {
                s.lists.push(data.map(|d| d.len()));
                let shape = s.list(shape);
                assert_eq!(shape.len(), dim as usize);
                let values: Vec<f64> = data.unwrap_or(&[]).iter().map(|v| v.to_f64()).collect();
                assert_eq!(values.len(), count(&shape));
                let value = Value { evaluated: true, ..Value::dense(dtype, &shape, values) };
                Reply::Array(s.put_array(value))
            }
            Call::NewScalar { value, dtype } => {
                let value = Value::dense(dtype, &[], vec![value.to_f64()]);
                let value = Value { evaluated: true, ..value };
                Reply::Array(s.put_array(value))
            }
            Call::FreeArray { array } => {
                assert!(array.ctx == 0 || s.arrays.remove(&array.ctx).is_some());
                Reply::Done
            }
            Call::Invoke { out, op, stream } => {
                let result = s.compute(op, stream);
                let result = match s.sabotage.take() {
                    Some(message) => Err(message),
                    None => result,
                };
                match result {
                    Ok(value) => {
                        assert_eq!(out.ctx, 0);
                        let out = s.put_array(value);
                        Reply::Status { status: 0, out, message: String::new() }
                    }
                    Err(message) => {
                        assert!(s.installed, "a failure without an error handler");
                        Reply::Status { status: 1, out, message }
                    }
                }
            }
            Call::Eval { array } => {
                let value = s.arrays.get_mut(&array.ctx);
                value.expect("an array handle that is in use").evaluated = true;
                Reply::Done
            }
            Call::Size { array } => Reply::Count(count(&s.array(array).shape)),
            Call::Ndim { array } => Reply::Count(s.array(array).shape.len()),
            Call::Shape { array, ndim } => {
                assert_eq!(s.array(array).shape.len(), ndim);
                Reply::Dims(s.array(array).shape.clone())
            }
            Call::Strides { array, ndim } => {
                let value = s.array(array);
                assert_eq!(value.strides.len(), ndim);
                Reply::Strides(if value.evaluated { value.strides.clone() } else { vec![0; ndim] })
            }
            Call::Dtype { array } => Reply::Code(s.array(array).dtype),
            Call::Item { array } => {
                let value = s.array(array);
                assert!(value.evaluated && count(&value.shape) == 1);
                Reply::Item(T::from_f64(value.storage[0]))
            }
            Call::Copy { array, len } => {
                let value = s.array(array);
                assert!(value.evaluated && value.dtype == T::DTYPE.as_raw());
                Reply::Elements(value.storage[..len].iter().map(|&v| T::from_f64(v)).collect())
            }
            Call::NewGpuStream => {
                let lane = s.default_streams[&Device::Gpu];
                Reply::Stream(s.put_stream(lane))
            }
            Call::NewCpuStream => {
                let lane = s.default_streams[&Device::Cpu];
                Reply::Stream(s.put_stream(lane))
            }
            Call::NewStream => Reply::Stream(RawStream { ctx: 0 }),
            Call::FreeStream { stream } => {
                assert!(stream.ctx == 0 || s.streams.remove(&stream.ctx).is_some());
                Reply::Done
            }
            Call::NewDevice => Reply::Device(RawDevice { ctx: 0 }),
            Call::FreeDevice { device } => {
                assert!(device.ctx == 0 || s.devices.remove(&device.ctx).is_some());
                Reply::Done
            }
            Call::StreamDevice { device, stream } => {
                assert_eq!(device.ctx, 0);
                let (found, _) = s.lane(stream);
                let ctx = s.fresh();
                s.devices.insert(ctx, found);
                Reply::Device(RawDevice { ctx })
            }
            Call::DefaultDevice { device } => {
                assert_eq!(device.ctx, 0);
                let ctx = s.fresh();
                s.devices.insert(ctx, s.default_device);
                Reply::Device(RawDevice { ctx })
            }
            Call::SetDefaultDevice { device } => {
                s.default_device = s.device(device);
                Reply::Done
            }
            Call::DefaultStream { stream, device } => {
                assert_eq!(stream.ctx, 0);
                let lane = s.default_streams[&s.device(device)];
                Reply::Stream(s.put_stream(lane))
            }
            Call::SetDefaultStream { stream } => {
                let lane = s.lane(stream);
                s.default_streams.insert(lane.0, lane);
                Reply::Done
            }
            Call::NewString => Reply::String(RawString { ctx: 0 }),
            Call::ArrayText { string, array } => {
                assert_eq!(string.ctx, 0);
                let value = s.array(array).clone();
                let name = Dtype::from_raw(value.dtype).name();
                let ctx = s.fresh();
                s.strings.insert(ctx, format!("array({:?}, dtype={name})", value.logical()));
                Reply::String(RawString { ctx })
            }
            Call::Version { string } => {
                assert_eq!(string.ctx, 0);
                let ctx = s.fresh();
                s.strings.insert(ctx, "0.29.3".to_string());
                Reply::String(RawString { ctx })
            }
            Call::StringData { string } => Reply::Text(s.string(string).clone()),
            Call::FreeString { string } => {
                assert!(string.ctx == 0 || s.strings.remove(&string.ctx).is_some());
                Reply::Done
            }
        }
    }

    /// Runs a task to its end.
    fn run<'a, T: Element + 'a, K: Task<'a, T>>(&self, task: K) -> K::Output {
        let mut task = task;
        loop {
            let reply = self.perform(task.call());
            match task.resume(reply) {
                Step::More(next) => task = next,
                Step::Done(output) => return output,
            }
        }
    }

    fn own(&self, array: Array) -> Arr<'_> {
        Arr { mlx: self, array: Some(array) }
    }

    fn cpu(&self) -> Str<'_> {
        Str { mlx: self, stream: Some(self.run(Stream::cpu())) }
    }

    fn gpu(&self) -> Str<'_> {
        Str { mlx: self, stream: Some(self.run(Stream::gpu())) }
    }

    fn default_stream(&self) -> Str<'_> {
        Str { mlx: self, stream: Some(self.run(Stream::default())) }
    }

    fn from_slice<T: Element>(&self, data: &[T], shape: &[i32]) -> Arr<'_> {
        match Array::from_slice(data, T::DTYPE, shape) {
            Ok(task) => self.own(self.run(task)),
            Err(error) => panic!("{}", error.describe()),
        }
    }

    fn from_scalar<T: Element>(&self, value: T) -> Arr<'_> {
        self.own(self.run(Array::from_scalar(value, T::DTYPE)))
    }

    fn zeros<T: Element>(&self, shape: &[i32], s: &Str) -> Result<Arr<'_>, Error> {
        self.run(Array::zeros(shape, T::DTYPE, s.get())).map(|a| self.own(a))
    }

    fn ones<T: Element>(&self, shape: &[i32], s: &Str) -> Result<Arr<'_>, Error> {
        self.run(Array::ones(shape, T::DTYPE, s.get())).map(|a| self.own(a))
    }

    fn full<T: Element>(&self, shape: &[i32], value: T, s: &Str) -> Result<Arr<'_>, Error> {
        self.run(Array::full(shape, value, T::DTYPE, s.get())).map(|a| self.own(a))
    }

    fn arange<T: Element>(
        &self,
        start: f64,
        stop: f64,
        step: f64,
        s: &Str,
    ) -> Result<Arr<'_>, Error> {
        let task = Array::arange(
            start.to_bits(),
            stop.to_bits(),
            step.to_bits(),
            T::DTYPE,
            s.get(),
        );
        self.run(task).map(|a| self.own(a))
    }

    /// The names of the calls since the last time this was asked.
    fn calls(&self) -> Vec<String> {
        std::mem::take(&mut self.state.borrow_mut().log)
    }

    /// The lanes that operations ran on since the last time this was asked.
    fn lanes(&self) -> Vec<Lane> {
        std::mem::take(&mut self.state.borrow_mut().lanes)
    }

    /// The lists that calls got since the last time this was asked.
    fn lists(&self) -> Vec<Option<usize>> {
        std::mem::take(&mut self.state.borrow_mut().lists)
    }

    /// Makes the next operation fail.
    fn sabotage(&self, message: &str) {
        self.state.borrow_mut().sabotage = Some(message.to_string());
    }

    /// The handles that are in use.
    fn in_use(&self) -> usize {
        let s = self.state.borrow();
        s.arrays.len() + s.streams.len() + s.devices.len() + s.strings.len()
    }
}

/// Runs a test, and sees to it that every handle has been given back.
fn with(test: impl FnOnce(&Mlx)) {
    let mlx = Mlx::new();
    test(&mlx);
    assert_eq!(mlx.in_use(), 0);
}

/// A stream that is released when it goes out of scope.
struct Str<'m> {
    mlx: &'m Mlx,
    stream: Option<Stream>,
}

impl Str<'_> {
    fn get(&self) -> &Stream {
        self.stream.as_ref().unwrap()
    }

    fn set_as_default(&self) {
        self.mlx.run(self.get().set_as_default())
    }

    fn lane(&self) -> Lane {
        self.mlx.state.borrow().lane(self.get().as_raw())
    }
}

impl Drop for Str<'_> {
    fn drop(&mut self) {
        if let Some(stream) = self.stream.take() {
            self.mlx.perform(stream.release());
        }
    }
}

/// An array that is released when it goes out of scope.
struct Arr<'m> {
    mlx: &'m Mlx,
    array: Option<Array>,
}

impl Drop for Arr<'_> {
    fn drop(&mut self) {
        if let Some(array) = self.array.take() {
            self.mlx.perform(array.release());
        }
    }
}

impl fmt::Debug for Arr<'_> {
    fn fmt(&self, f: &mut fmt::Formatter<'_>) -> fmt::Result {
        f.write_str(&self.mlx.run(self.get().describe()))
    }
}

impl<'m> Arr<'m> {
    fn get(&self) -> &Array {
        self.array.as_ref().unwrap()
    }

    fn get_mut(&mut self) -> &mut Array {
        self.array.as_mut().unwrap()
    }

    fn wrap(&self, result: Result<Array, Error>) -> Result<Arr<'m>, Error> {
        result.map(|array| self.mlx.own(array))
    }

    fn size(&self) -> usize {
        self.mlx.run(self.get().size())
    }

    fn ndim(&self) -> usize {
        self.mlx.run(self.get().ndim())
    }

    fn shape(&self) -> Vec<i32> {
        self.mlx.run(self.get().shape())
    }

    fn strides(&self) -> Vec<usize> {
        self.mlx.run(self.get().strides())
    }

    fn dtype(&self) -> Dtype {
        self.mlx.run(self.get().dtype())
    }

    fn is_row_contiguous(&self) -> bool {
        self.mlx.run(self.get().is_row_contiguous())
    }

    fn eval(&self) {
        self.mlx.run(self.get().eval())
    }

    fn try_item<T: Element>(&self) -> Result<T, NotScalar> {
        self.mlx.run(self.get().item::<T>())
    }

    fn item<T: Element>(&self) -> T {
        match self.try_item() {
            Ok(value) => value,
            Err(error) => panic!("{}", error.describe()),
        }
    }

    fn try_to_vec<T: Element>(&self) -> Result<Vec<T>, ToVecError> {
        self.mlx.run(self.get().to_vec::<T>(T::DTYPE))
    }

    fn to_vec<T: Element>(&self) -> Vec<T> {
        match self.try_to_vec() {
            Ok(elements) => elements,
            Err(error) => panic!("{}", error.describe()),
        }
    }

    fn astype<T: Element>(&self, s: &Str) -> Result<Arr<'m>, Error> {
        self.wrap(self.mlx.run(self.get().astype(T::DTYPE, s.get())))
    }

    fn array_equal(&self, other: &Arr, equal_nan: bool, s: &Str) -> Result<Arr<'m>, Error> {
        self.wrap(self.mlx.run(self.get().array_equal(other.get(), equal_nan, s.get())))
    }

    fn reshape(&self, shape: &[i32], s: &Str) -> Result<Arr<'m>, Error> {
        self.wrap(self.mlx.run(self.get().reshape(shape, s.get())))
    }

    fn broadcast_to(&self, shape: &[i32], s: &Str) -> Result<Arr<'m>, Error> {
        self.wrap(self.mlx.run(self.get().broadcast_to(shape, s.get())))
    }

    fn expand_dims(&self, axis: i32, s: &Str) -> Result<Arr<'m>, Error> {
        self.wrap(self.mlx.run(self.get().expand_dims(axis, s.get())))
    }

    fn contiguous(&self, s: &Str) -> Result<Arr<'m>, Error> {
        self.wrap(self.mlx.run(self.get().contiguous(s.get())))
    }

    fn add(&self, other: &Arr, s: &Str) -> Result<Arr<'m>, Error> {
        self.wrap(self.mlx.run(self.get().add(other.get(), s.get())))
    }

    fn subtract(&self, other: &Arr, s: &Str) -> Result<Arr<'m>, Error> {
        self.wrap(self.mlx.run(self.get().subtract(other.get(), s.get())))
    }

    fn multiply(&self, other: &Arr, s: &Str) -> Result<Arr<'m>, Error> {
        self.wrap(self.mlx.run(self.get().multiply(other.get(), s.get())))
    }

    fn divide(&self, other: &Arr, s: &Str) -> Result<Arr<'m>, Error> {
        self.wrap(self.mlx.run(self.get().divide(other.get(), s.get())))
    }

    fn power(&self, other: &Arr, s: &Str) -> Result<Arr<'m>, Error> {
        self.wrap(self.mlx.run(self.get().power(other.get(), s.get())))
    }

    fn maximum(&self, other: &Arr, s: &Str) -> Result<Arr<'m>, Error> {
        self.wrap(self.mlx.run(self.get().maximum(other.get(), s.get())))
    }

    fn minimum(&self, other: &Arr, s: &Str) -> Result<Arr<'m>, Error> {
        self.wrap(self.mlx.run(self.get().minimum(other.get(), s.get())))
    }

    fn equal(&self, other: &Arr, s: &Str) -> Result<Arr<'m>, Error> {
        self.wrap(self.mlx.run(self.get().equal(other.get(), s.get())))
    }

    fn not_equal(&self, other: &Arr, s: &Str) -> Result<Arr<'m>, Error> {
        self.wrap(self.mlx.run(self.get().not_equal(other.get(), s.get())))
    }

    fn greater(&self, other: &Arr, s: &Str) -> Result<Arr<'m>, Error> {
        self.wrap(self.mlx.run(self.get().greater(other.get(), s.get())))
    }

    fn greater_equal(&self, other: &Arr, s: &Str) -> Result<Arr<'m>, Error> {
        self.wrap(self.mlx.run(self.get().greater_equal(other.get(), s.get())))
    }

    fn less(&self, other: &Arr, s: &Str) -> Result<Arr<'m>, Error> {
        self.wrap(self.mlx.run(self.get().less(other.get(), s.get())))
    }

    fn less_equal(&self, other: &Arr, s: &Str) -> Result<Arr<'m>, Error> {
        self.wrap(self.mlx.run(self.get().less_equal(other.get(), s.get())))
    }

    fn logical_and(&self, other: &Arr, s: &Str) -> Result<Arr<'m>, Error> {
        self.wrap(self.mlx.run(self.get().logical_and(other.get(), s.get())))
    }

    fn logical_or(&self, other: &Arr, s: &Str) -> Result<Arr<'m>, Error> {
        self.wrap(self.mlx.run(self.get().logical_or(other.get(), s.get())))
    }

    fn matmul(&self, other: &Arr, s: &Str) -> Result<Arr<'m>, Error> {
        self.wrap(self.mlx.run(self.get().matmul(other.get(), s.get())))
    }

    fn sqrt(&self, s: &Str) -> Result<Arr<'m>, Error> {
        self.wrap(self.mlx.run(self.get().sqrt(s.get())))
    }

    fn exp(&self, s: &Str) -> Result<Arr<'m>, Error> {
        self.wrap(self.mlx.run(self.get().exp(s.get())))
    }

    fn abs(&self, s: &Str) -> Result<Arr<'m>, Error> {
        self.wrap(self.mlx.run(self.get().abs(s.get())))
    }

    fn negative(&self, s: &Str) -> Result<Arr<'m>, Error> {
        self.wrap(self.mlx.run(self.get().negative(s.get())))
    }

    fn log(&self, s: &Str) -> Result<Arr<'m>, Error> {
        self.wrap(self.mlx.run(self.get().log(s.get())))
    }

    fn sin(&self, s: &Str) -> Result<Arr<'m>, Error> {
        self.wrap(self.mlx.run(self.get().sin(s.get())))
    }

    fn cos(&self, s: &Str) -> Result<Arr<'m>, Error> {
        self.wrap(self.mlx.run(self.get().cos(s.get())))
    }

    fn square(&self, s: &Str) -> Result<Arr<'m>, Error> {
        self.wrap(self.mlx.run(self.get().square(s.get())))
    }

    fn tanh(&self, s: &Str) -> Result<Arr<'m>, Error> {
        self.wrap(self.mlx.run(self.get().tanh(s.get())))
    }

    fn logical_not(&self, s: &Str) -> Result<Arr<'m>, Error> {
        self.wrap(self.mlx.run(self.get().logical_not(s.get())))
    }

    fn transpose(&self, s: &Str) -> Result<Arr<'m>, Error> {
        self.wrap(self.mlx.run(self.get().transpose(s.get())))
    }

    fn squeeze(&self, s: &Str) -> Result<Arr<'m>, Error> {
        self.wrap(self.mlx.run(self.get().squeeze(s.get())))
    }

    fn sum(&self, keepdims: bool, s: &Str) -> Result<Arr<'m>, Error> {
        self.wrap(self.mlx.run(self.get().sum(keepdims, s.get())))
    }

    fn sum_axes(&self, axes: &[i32], keepdims: bool, s: &Str) -> Result<Arr<'m>, Error> {
        self.wrap(self.mlx.run(self.get().sum_axes(axes, keepdims, s.get())))
    }

    fn mean(&self, keepdims: bool, s: &Str) -> Result<Arr<'m>, Error> {
        self.wrap(self.mlx.run(self.get().mean(keepdims, s.get())))
    }

    fn mean_axes(&self, axes: &[i32], keepdims: bool, s: &Str) -> Result<Arr<'m>, Error> {
        self.wrap(self.mlx.run(self.get().mean_axes(axes, keepdims, s.get())))
    }

    fn max(&self, keepdims: bool, s: &Str) -> Result<Arr<'m>, Error> {
        self.wrap(self.mlx.run(self.get().max(keepdims, s.get())))
    }

    fn max_axes(&self, axes: &[i32], keepdims: bool, s: &Str) -> Result<Arr<'m>, Error> {
        self.wrap(self.mlx.run(self.get().max_axes(axes, keepdims, s.get())))
    }

    fn min(&self, keepdims: bool, s: &Str) -> Result<Arr<'m>, Error> {
        self.wrap(self.mlx.run(self.get().min(keepdims, s.get())))
    }

    fn min_axes(&self, axes: &[i32], keepdims: bool, s: &Str) -> Result<Arr<'m>, Error> {
        self.wrap(self.mlx.run(self.get().min_axes(axes, keepdims, s.get())))
    }

    fn prod(&self, keepdims: bool, s: &Str) -> Result<Arr<'m>, Error> {
        self.wrap(self.mlx.run(self.get().prod(keepdims, s.get())))
    }

    fn prod_axes(&self, axes: &[i32], keepdims: bool, s: &Str) -> Result<Arr<'m>, Error> {
        self.wrap(self.mlx.run(self.get().prod_axes(axes, keepdims, s.get())))
    }

    fn all(&self, keepdims: bool, s: &Str) -> Result<Arr<'m>, Error> {
        self.wrap(self.mlx.run(self.get().all(keepdims, s.get())))
    }

    fn all_axes(&self, axes: &[i32], keepdims: bool, s: &Str) -> Result<Arr<'m>, Error> {
        self.wrap(self.mlx.run(self.get().all_axes(axes, keepdims, s.get())))
    }

    fn any(&self, keepdims: bool, s: &Str) -> Result<Arr<'m>, Error> {
        self.wrap(self.mlx.run(self.get().any(keepdims, s.get())))
    }

    fn any_axes(&self, axes: &[i32], keepdims: bool, s: &Str) -> Result<Arr<'m>, Error> {
        self.wrap(self.mlx.run(self.get().any_axes(axes, keepdims, s.get())))
    }

    /// `self op rhs`, as the operators have it.
    fn combine(&self, op: Arith, rhs: &Arr<'m>) -> Arr<'m> {
        self.settle(self.mlx.run(array_op(op, self.get(), rhs.get())))
    }

    /// `self op value`, as the operators have it.
    fn combine_value<T: Element>(&self, op: Arith, value: T) -> Arr<'m> {
        self.settle(self.mlx.run(scalar_rhs_op(op, self.get(), value, T::DTYPE)))
    }

    /// `value op self`, as the operators have it.
    fn combine_under<T: Element>(&self, op: Arith, value: T) -> Arr<'m> {
        self.settle(self.mlx.run(scalar_lhs_op(op, value, T::DTYPE, self.get())))
    }

    fn settle(&self, result: Result<Array, OperatorError>) -> Arr<'m> {
        match result {
            Ok(array) => self.mlx.own(array),
            Err(error) => panic!("{}", error.describe()),
        }
    }

    fn take_place(&mut self, result: Result<Array, OperatorError>) {
        if let Err(error) = rebind(self.get_mut(), result) {
            panic!("{}", error.describe());
        }
    }

    /// `self op= rhs`
    fn assign(&mut self, op: Arith, rhs: &Arr<'m>) {
        let mlx = self.mlx;
        let result = mlx.run(assign_op(op, self.get_mut(), rhs.get()));
        self.take_place(result)
    }

    /// `self op= value`
    fn assign_value<T: Element>(&mut self, op: Arith, value: T) {
        let mlx = self.mlx;
        let result = mlx.run(assign_scalar_op(op, self.get_mut(), value, T::DTYPE));
        self.take_place(result)
    }
}

impl<'m> Neg for &Arr<'m> {
    type Output = Arr<'m>;
    fn neg(self) -> Arr<'m> {
        self.settle(self.mlx.run(neg(self.get())))
    }
}

impl<'m> Add for &Arr<'m> {
    type Output = Arr<'m>;
    fn add(self, rhs: &Arr<'m>) -> Arr<'m> {
        self.combine(Arith::Add, rhs)
    }
}

impl<'m, T: Element> Add<T> for &Arr<'m> {
    type Output = Arr<'m>;
    fn add(self, rhs: T) -> Arr<'m> {
        self.combine_value(Arith::Add, rhs)
    }
}

impl<'m> Add<&Arr<'m>> for f32 {
    type Output = Arr<'m>;
    fn add(self, rhs: &Arr<'m>) -> Arr<'m> {
        rhs.combine_under(Arith::Add, self)
    }
}

impl<'m> Add<&Arr<'m>> for i32 {
    type Output = Arr<'m>;
    fn add(self, rhs: &Arr<'m>) -> Arr<'m> {
        rhs.combine_under(Arith::Add, self)
    }
}

impl<'m> AddAssign<&Arr<'m>> for Arr<'m> {
    fn add_assign(&mut self, rhs: &Arr<'m>) {
        self.assign(Arith::Add, rhs)
    }
}

impl<'m, T: Element> AddAssign<T> for Arr<'m> {
    fn add_assign(&mut self, rhs: T) {
        self.assign_value(Arith::Add, rhs)
    }
}

impl<'m> Sub for &Arr<'m> {
    type Output = Arr<'m>;
    fn sub(self, rhs: &Arr<'m>) -> Arr<'m> {
        self.combine(Arith::Subtract, rhs)
    }
}

impl<'m, T: Element> Sub<T> for &Arr<'m> {
    type Output = Arr<'m>;
    fn sub(self, rhs: T) -> Arr<'m> {
        self.combine_value(Arith::Subtract, rhs)
    }
}

impl<'m> Sub<&Arr<'m>> for f32 {
    type Output = Arr<'m>;
    fn sub(self, rhs: &Arr<'m>) -> Arr<'m> {
        rhs.combine_under(Arith::Subtract, self)
    }
}

impl<'m> Sub<&Arr<'m>> for i32 {
    type Output = Arr<'m>;
    fn sub(self, rhs: &Arr<'m>) -> Arr<'m> {
        rhs.combine_under(Arith::Subtract, self)
    }
}

impl<'m> SubAssign<&Arr<'m>> for Arr<'m> {
    fn sub_assign(&mut self, rhs: &Arr<'m>) {
        self.assign(Arith::Subtract, rhs)
    }
}

impl<'m, T: Element> SubAssign<T> for Arr<'m> {
    fn sub_assign(&mut self, rhs: T) {
        self.assign_value(Arith::Subtract, rhs)
    }
}

impl<'m> Mul for &Arr<'m> {
    type Output = Arr<'m>;
    fn mul(self, rhs: &Arr<'m>) -> Arr<'m> {
        self.combine(Arith::Multiply, rhs)
    }
}

impl<'m, T: Element> Mul<T> for &Arr<'m> {
    type Output = Arr<'m>;
    fn mul(self, rhs: T) -> Arr<'m> {
        self.combine_value(Arith::Multiply, rhs)
    }
}

impl<'m> Mul<&Arr<'m>> for f32 {
    type Output = Arr<'m>;
    fn mul(self, rhs: &Arr<'m>) -> Arr<'m> {
        rhs.combine_under(Arith::Multiply, self)
    }
}

impl<'m> Mul<&Arr<'m>> for i32 {
    type Output = Arr<'m>;
    fn mul(self, rhs: &Arr<'m>) -> Arr<'m> {
        rhs.combine_under(Arith::Multiply, self)
    }
}

impl<'m> MulAssign<&Arr<'m>> for Arr<'m> {
    fn mul_assign(&mut self, rhs: &Arr<'m>) {
        self.assign(Arith::Multiply, rhs)
    }
}

impl<'m, T: Element> MulAssign<T> for Arr<'m> {
    fn mul_assign(&mut self, rhs: T) {
        self.assign_value(Arith::Multiply, rhs)
    }
}

impl<'m> Div for &Arr<'m> {
    type Output = Arr<'m>;
    fn div(self, rhs: &Arr<'m>) -> Arr<'m> {
        self.combine(Arith::Divide, rhs)
    }
}

impl<'m, T: Element> Div<T> for &Arr<'m> {
    type Output = Arr<'m>;
    fn div(self, rhs: T) -> Arr<'m> {
        self.combine_value(Arith::Divide, rhs)
    }
}

impl<'m> Div<&Arr<'m>> for f32 {
    type Output = Arr<'m>;
    fn div(self, rhs: &Arr<'m>) -> Arr<'m> {
        rhs.combine_under(Arith::Divide, self)
    }
}

impl<'m> Div<&Arr<'m>> for i32 {
    type Output = Arr<'m>;
    fn div(self, rhs: &Arr<'m>) -> Arr<'m> {
        rhs.combine_under(Arith::Divide, self)
    }
}

impl<'m> DivAssign<&Arr<'m>> for Arr<'m> {
    fn div_assign(&mut self, rhs: &Arr<'m>) {
        self.assign(Arith::Divide, rhs)
    }
}

impl<'m, T: Element> DivAssign<T> for Arr<'m> {
    fn div_assign(&mut self, rhs: T) {
        self.assign_value(Arith::Divide, rhs)
    }
}

#[test]
fn from_slice_reports_shape_size_ndim() {
    with(|m| {
        let a = m.from_slice(&[1.0f32, 2.0, 3.0, 4.0, 5.0, 6.0], &[2, 3]);
        assert_eq!(a.size(), 6);
        assert_eq!(a.ndim(), 2);
        assert_eq!(a.shape(), vec![2, 3]);
    });
}

#[test]
fn element_type_selects_dtype() {
    with(|m| {
        // Both element types build valid arrays; the dtype is carried by `T`.
        let floats = m.from_slice(&[1.0f32, 2.0], &[2]);
        assert_eq!(floats.shape(), vec![2]);
        let ints = m.from_slice(&[1i32, 2, 3], &[3]);
        assert_eq!(ints.shape(), vec![3]);
    });
}

#[test]
fn scalar_array_is_zero_dim() {
    with(|m| {
        let a = m.from_slice(&[42.0f32], &[]);
        assert_eq!(a.ndim(), 0);
        assert_eq!(a.size(), 1);
        assert!(a.shape().is_empty());
    });
}

#[test]
fn from_scalar_is_zero_dim() {
    with(|m| {
        let a = m.from_scalar(42.0f32);
        assert_eq!(a.ndim(), 0);
        assert_eq!(a.item::<f32>(), 42.0);
    });
}

#[test]
fn empty_array_has_no_elements() {
    with(|m| {
        // Exercises the null-pointer path for empty `data`.
        let a = m.from_slice::<f32>(&[], &[0]);
        assert_eq!(a.size(), 0);
        assert_eq!(a.shape(), vec![0]);
        assert!(a.to_vec::<f32>().is_empty());
    });
}

#[test]
fn zeros_and_ones_fill_shape() {
    with(|m| {
        let s = m.cpu();

        let z = m.zeros::<f32>(&[2, 3], &s).unwrap();
        assert_eq!(z.shape(), vec![2, 3]);
        assert_eq!(z.to_vec::<f32>(), vec![0.0; 6]);

        let o = m.ones::<f32>(&[2, 2], &s).unwrap();
        assert_eq!(o.to_vec::<f32>(), vec![1.0; 4]);

        // The type parameter picks the dtype, so integer arrays work too.
        let i = m.ones::<i32>(&[3], &s).unwrap();
        assert_eq!(i.to_vec::<i32>(), vec![1, 1, 1]);
    });
}

#[test]
fn full_broadcasts_a_scalar() {
    with(|m| {
        let s = m.cpu();
        let a = m.full(&[2, 2], 7.5f32, &s).unwrap();
        assert_eq!(a.shape(), vec![2, 2]);
        assert_eq!(a.to_vec::<f32>(), vec![7.5; 4]);

        // An empty shape yields a 0-d array, not an error.
        let scalar = m.full(&[], 3i32, &s).unwrap();
        assert_eq!(scalar.ndim(), 0);
        assert_eq!(scalar.item::<i32>(), 3);
    });
}

#[test]
fn arange_is_half_open() {
    with(|m| {
        let s = m.cpu();
        // `stop` is exclusive, so this is 0..5, not 0..=5.
        let a = m.arange::<i32>(0.0, 5.0, 1.0, &s).unwrap();
        assert_eq!(a.to_vec::<i32>(), vec![0, 1, 2, 3, 4]);

        let f = m.arange::<f32>(1.0, 2.0, 0.5, &s).unwrap();
        assert_eq!(f.to_vec::<f32>(), vec![1.0, 1.5]);
    });
}

#[test]
fn constructors_compose_with_ops() {
    with(|m| {
        let s = m.cpu();
        // ones + ones == twos, over a shape built by a constructor.
        let o = m.ones::<f32>(&[4], &s).unwrap();
        assert_eq!(o.add(&o, &s).unwrap().to_vec::<f32>(), vec![2.0; 4]);

        // A 0-d scalar broadcasts against a larger array.
        let a = m.arange::<f32>(0.0, 4.0, 1.0, &s).unwrap();
        let two = m.from_scalar(2.0f32);
        assert_eq!(
            a.multiply(&two, &s).unwrap().to_vec::<f32>(),
            vec![0.0, 2.0, 4.0, 6.0]
        );
    });
}

#[test]
fn astype_converts_dtype() {
    with(|m| {
        let s = m.cpu();
        let ints = m.from_slice(&[1i32, 2, 3], &[3]);

        // Reading as f32 is only possible after converting.
        let floats = ints.astype::<f32>(&s).unwrap();
        assert_eq!(floats.to_vec::<f32>(), vec![1.0, 2.0, 3.0]);
        // The source is untouched: astype returns a new array.
        assert_eq!(ints.to_vec::<i32>(), vec![1, 2, 3]);
        // Shape is preserved; only the dtype changes.
        assert_eq!(floats.shape(), ints.shape());
    });
}

#[test]
fn astype_narrowing_truncates_toward_zero() {
    with(|m| {
        let s = m.cpu();
        // C++ cast semantics: truncation, not rounding, and no error.
        let a = m.from_slice(&[2.7f32, -2.7, 0.9], &[3]);
        assert_eq!(a.astype::<i32>(&s).unwrap().to_vec::<i32>(), vec![2, -2, 0]);
    });
}

#[test]
fn astype_bool_round_trip() {
    with(|m| {
        let s = m.cpu();
        // numeric -> bool is `!= 0`; bool -> numeric is 0/1.
        let a = m.from_slice(&[0.0f32, 1.0, 2.0, -3.0], &[4]);
        let flags = a.astype::<bool>(&s).unwrap();
        assert_eq!(flags.to_vec::<bool>(), vec![false, true, true, true]);
        assert_eq!(
            flags.astype::<i32>(&s).unwrap().to_vec::<i32>(),
            vec![0, 1, 1, 1]
        );
    });
}

#[test]
fn astype_to_same_dtype_is_a_noop() {
    with(|m| {
        let s = m.cpu();
        let a = m.from_slice(&[1.5f32, 2.5], &[2]);
        assert_eq!(a.astype::<f32>(&s).unwrap().to_vec::<f32>(), vec![1.5, 2.5]);
    });
}

#[test]
fn matmul_contracts_inner_dimension() {
    with(|m| {
        let s = m.cpu();
        // (2,3) @ (3,2) -> (2,2)
        let a = m.from_slice(&[1.0f32, 2.0, 3.0, 4.0, 5.0, 6.0], &[2, 3]);
        let b = m.from_slice(&[7.0f32, 8.0, 9.0, 10.0, 11.0, 12.0], &[3, 2]);
        let c = a.matmul(&b, &s).unwrap();
        assert_eq!(c.shape(), vec![2, 2]);
        // [1,2,3]·[7,9,11] = 58, [1,2,3]·[8,10,12] = 64,
        // [4,5,6]·[7,9,11] = 139, [4,5,6]·[8,10,12] = 154.
        assert_eq!(c.to_vec::<f32>(), vec![58.0, 64.0, 139.0, 154.0]);
    });
}

#[test]
fn matmul_is_not_elementwise_multiply() {
    with(|m| {
        let s = m.cpu();
        // Same square operands: matmul and `*` must disagree.
        let a = m.from_slice(&[1.0f32, 2.0, 3.0, 4.0], &[2, 2]);
        assert_eq!(
            a.matmul(&a, &s).unwrap().to_vec::<f32>(),
            vec![7.0, 10.0, 15.0, 22.0]
        );
        assert_eq!(
            a.multiply(&a, &s).unwrap().to_vec::<f32>(),
            vec![1.0, 4.0, 9.0, 16.0]
        );
    });
}

#[test]
fn matmul_collapses_one_dim_operands() {
    with(|m| {
        let s = m.cpu();
        let v = m.from_slice(&[1.0f32, 2.0, 3.0], &[3]);

        // (3,) @ (3,) is a dot product, and the result is 0-dimensional.
        let dot = v.matmul(&v, &s).unwrap();
        assert_eq!(dot.ndim(), 0);
        assert_eq!(dot.item::<f32>(), 14.0); // 1 + 4 + 9

        // (2,3) @ (3,) -> (2,), the appended axis is dropped again.
        let m = m.from_slice(&[1.0f32, 2.0, 3.0, 4.0, 5.0, 6.0], &[2, 3]);
        let mv = m.matmul(&v, &s).unwrap();
        assert_eq!(mv.shape(), vec![2]);
        assert_eq!(mv.to_vec::<f32>(), vec![14.0, 32.0]);
    });
}

#[test]
fn matmul_broadcasts_batch_dimensions() {
    with(|m| {
        let s = m.cpu();
        // Leading axes are batch dims: (2,2,3) @ (2,3,2) -> (2,2,2).
        let a = m.arange::<f32>(0.0, 12.0, 1.0, &s)
            .unwrap()
            .reshape(&[2, 2, 3], &s)
            .unwrap();
        let b = m.ones::<f32>(&[2, 3, 2], &s).unwrap();
        let c = a.matmul(&b, &s).unwrap();
        assert_eq!(c.shape(), vec![2, 2, 2]);
        // With a ones matrix each output is the row sum, duplicated per column.
        assert_eq!(
            c.to_vec::<f32>(),
            vec![3.0, 3.0, 12.0, 12.0, 21.0, 21.0, 30.0, 30.0]
        );
    });
}

#[test]
fn matmul_with_transpose() {
    with(|m| {
        let s = m.cpu();
        // The shape a linear layer uses: x @ w.T, (2,3) @ (2,3).T -> (2,2).
        let x = m.from_slice(&[1.0f32, 2.0, 3.0, 4.0, 5.0, 6.0], &[2, 3]);
        let w = m.from_slice(&[1.0f32, 0.0, 0.0, 0.0, 1.0, 0.0], &[2, 3]);
        let out = x.matmul(&w.transpose(&s).unwrap(), &s).unwrap();
        assert_eq!(out.shape(), vec![2, 2]);
        // Rows of w select element 0 and element 1 of each row of x.
        assert_eq!(out.to_vec::<f32>(), vec![1.0, 2.0, 4.0, 5.0]);
    });
}

#[test]
fn matmul_shape_mismatch_returns_err() {
    with(|m| {
        let s = m.cpu();
        // (2,3) @ (2,3) has inner dims 3 and 2 — not an error we should panic on.
        let a = m.from_slice(&[1.0f32, 2.0, 3.0, 4.0, 5.0, 6.0], &[2, 3]);
        let err = a.matmul(&a, &s).unwrap_err();
        assert!(
            !err.message().is_empty(),
            "expected a message from mlx, got {err:?}"
        );
    });
}

#[test]
fn scalar_on_the_right() {
    with(|m| {
        let a = m.from_slice(&[1.0f32, 2.0, 3.0], &[3]);
        assert_eq!((&a * 2.0f32).to_vec::<f32>(), vec![2.0, 4.0, 6.0]);
        assert_eq!((&a + 1.0f32).to_vec::<f32>(), vec![2.0, 3.0, 4.0]);
        assert_eq!((&a - 1.0f32).to_vec::<f32>(), vec![0.0, 1.0, 2.0]);
        assert_eq!((&a / 2.0f32).to_vec::<f32>(), vec![0.5, 1.0, 1.5]);
    });
}

#[test]
fn scalar_on_the_left() {
    with(|m| {
        let a = m.from_slice(&[1.0f32, 2.0, 4.0], &[3]);
        // Commutative ops match the right-hand form...
        assert_eq!((2.0f32 * &a).to_vec::<f32>(), (&a * 2.0f32).to_vec::<f32>());
        assert_eq!((1.0f32 + &a).to_vec::<f32>(), vec![2.0, 3.0, 5.0]);
        // ...and the non-commutative ones are why these impls exist.
        assert_eq!((10.0f32 - &a).to_vec::<f32>(), vec![9.0, 8.0, 6.0]);
        assert_eq!((8.0f32 / &a).to_vec::<f32>(), vec![8.0, 4.0, 2.0]);
    });
}

#[test]
fn integer_scalars_keep_integer_dtype() {
    with(|m| {
        let a = m.from_slice(&[1i32, 2, 3], &[3]);
        let doubled = &a * 2i32;
        assert_eq!(doubled.to_vec::<i32>(), vec![2, 4, 6]);
        assert_eq!((2i32 * &a).to_vec::<i32>(), vec![2, 4, 6]);
    });
}

#[test]
fn suffixed_scalar_keeps_the_array_dtype() {
    with(|m| {
        let a = m.from_slice(&[1.0f32, 2.0], &[2]);
        let kept = &a * 2.0f32;
        assert!(
            format!("{kept:?}").contains("float32"),
            "expected float32, got {kept:?}"
        );
    });
}

#[test]
fn unsuffixed_float_scalar_widens_to_float64() {
    with(|m| {
        let s = m.cpu();
        let a = m.from_slice(&[1.0f32, 2.0], &[2]);
        // An unsuffixed literal infers `f64` (Rust's float fallback), and MLX
        // promotes the result to the wider dtype.
        let widened = a.multiply(&m.from_scalar(2.0), &s).unwrap();
        assert!(
            format!("{widened:?}").contains("float64"),
            "expected float64, got {widened:?}"
        );
    });
}

#[test]
fn float64_is_rejected_on_the_gpu() {
    with(|m| {
        // Why the widening above matters: Metal has no float64. Checked through
        // the method API so the failure is an `Err` rather than a panic raised
        // in the middle of GPU encoding.
        let a = m.from_slice(&[1.0f32, 2.0], &[2]);
        let err = a
            .multiply(&m.from_scalar(2.0), &m.gpu())
            .unwrap_err();
        assert!(
            err.message().contains("float64"),
            "unexpected message: {}",
            err.message()
        );
    });
}

#[test]
fn scalar_ops_broadcast_over_any_shape() {
    with(|m| {
        // The scalar is 0-dimensional, so it broadcasts regardless of rank.
        let a = m.from_slice(&[1.0f32, 2.0, 3.0, 4.0, 5.0, 6.0], &[2, 3]);
        let scaled = &a * 10.0f32;
        assert_eq!(scaled.shape(), vec![2, 3]);
        assert_eq!(
            scaled.to_vec::<f32>(),
            vec![10.0, 20.0, 30.0, 40.0, 50.0, 60.0]
        );
    });
}

#[test]
fn full_reductions_over_all_elements() {
    with(|m| {
        let s = m.cpu();
        // Reduces across every axis, not just the last one.
        let a = m.from_slice(&[3.0f32, 1.0, 4.0, 1.0, 5.0, 9.0], &[2, 3]);
        assert_eq!(a.max(false, &s).unwrap().item::<f32>(), 9.0);
        assert_eq!(a.min(false, &s).unwrap().item::<f32>(), 1.0);

        let b = m.from_slice(&[1.0f32, 2.0, 3.0, 4.0], &[2, 2]);
        assert_eq!(b.prod(false, &s).unwrap().item::<f32>(), 24.0);
    });
}

#[test]
fn full_reductions_respect_keepdims() {
    with(|m| {
        let s = m.cpu();
        let a = m.from_slice(&[1.0f32, 2.0, 3.0, 4.0], &[2, 2]);

        // Without keepdims the rank collapses to 0...
        assert_eq!(a.max(false, &s).unwrap().ndim(), 0);
        // ...with it, every reduced axis is kept at size 1.
        assert_eq!(a.max(true, &s).unwrap().shape(), vec![1, 1]);
        assert_eq!(a.min(true, &s).unwrap().shape(), vec![1, 1]);
        assert_eq!(a.prod(true, &s).unwrap().shape(), vec![1, 1]);
    });
}

#[test]
fn full_reductions_agree_with_axis_versions() {
    with(|m| {
        let s = m.cpu();
        let a = m.from_slice(&[3.0f32, 1.0, 4.0, 1.0, 5.0, 9.0], &[2, 3]);
        // Reducing over all axes explicitly must match the full reduction.
        assert_eq!(
            a.max(false, &s).unwrap().item::<f32>(),
            a.max_axes(&[0, 1], false, &s).unwrap().item::<f32>()
        );
        assert_eq!(
            a.min(false, &s).unwrap().item::<f32>(),
            a.min_axes(&[0, 1], false, &s).unwrap().item::<f32>()
        );
        assert_eq!(
            a.prod(false, &s).unwrap().item::<f32>(),
            a.prod_axes(&[0, 1], false, &s).unwrap().item::<f32>()
        );
    });
}

#[test]
fn dtype_reports_the_element_type() {
    with(|m| {
        let s = m.cpu();
        assert_eq!(
            m.from_slice(&[1.0f32, 2.0], &[2]).dtype(),
            Dtype::Float32
        );
        assert_eq!(m.from_slice(&[1i32, 2], &[2]).dtype(), Dtype::Int32);
        assert_eq!(m.from_scalar(true).dtype(), Dtype::Bool);
        assert_eq!(m.zeros::<u8>(&[2], &s).unwrap().dtype(), Dtype::Uint8);

        // Ops decide the dtype themselves: astype converts, and mixing widens.
        let ints = m.from_slice(&[1i32, 2], &[2]);
        assert_eq!(ints.astype::<f32>(&s).unwrap().dtype(), Dtype::Float32);
        let floats = m.from_slice(&[0.5f32, 0.5], &[2]);
        assert_eq!(ints.add(&floats, &s).unwrap().dtype(), Dtype::Float32);
    });
}

#[test]
fn comparisons_produce_bool_masks() {
    with(|m| {
        let s = m.cpu();
        let a = m.from_slice(&[1.0f32, 2.0, 3.0], &[3]);
        let b = m.from_slice(&[3.0f32, 2.0, 1.0], &[3]);

        let eq = a.equal(&b, &s).unwrap();
        // Comparing floats gives bool, not float.
        assert_eq!(eq.dtype(), Dtype::Bool);
        assert_eq!(eq.to_vec::<bool>(), vec![false, true, false]);

        assert_eq!(
            a.not_equal(&b, &s).unwrap().to_vec::<bool>(),
            vec![true, false, true]
        );
        assert_eq!(
            a.greater(&b, &s).unwrap().to_vec::<bool>(),
            vec![false, false, true]
        );
        assert_eq!(
            a.greater_equal(&b, &s).unwrap().to_vec::<bool>(),
            vec![false, true, true]
        );
        assert_eq!(
            a.less(&b, &s).unwrap().to_vec::<bool>(),
            vec![true, false, false]
        );
        assert_eq!(
            a.less_equal(&b, &s).unwrap().to_vec::<bool>(),
            vec![true, true, false]
        );
    });
}

#[test]
fn comparisons_broadcast_against_a_scalar() {
    with(|m| {
        let s = m.cpu();
        let a = m.from_slice(&[1.0f32, 2.0, 3.0, 4.0], &[2, 2]);
        let mask = a.greater(&m.from_scalar(2.0f32), &s).unwrap();
        // The scalar stretches over both axes, so the mask keeps `a`'s shape.
        assert_eq!(mask.shape(), vec![2, 2]);
        assert_eq!(mask.to_vec::<bool>(), vec![false, false, true, true]);
    });
}

#[test]
fn logical_ops_combine_masks() {
    with(|m| {
        let s = m.cpu();
        let x = m.from_slice(&[true, true, false, false], &[4]);
        let y = m.from_slice(&[true, false, true, false], &[4]);

        assert_eq!(
            x.logical_and(&y, &s).unwrap().to_vec::<bool>(),
            vec![true, false, false, false]
        );
        assert_eq!(
            x.logical_or(&y, &s).unwrap().to_vec::<bool>(),
            vec![true, true, true, false]
        );
        assert_eq!(
            x.logical_not(&s).unwrap().to_vec::<bool>(),
            vec![false, false, true, true]
        );
    });
}

#[test]
fn logical_ops_test_truthiness_of_numbers() {
    with(|m| {
        let s = m.cpu();
        // 2.0 is neither 1 nor 0: a bitwise `and` would give 0, truthiness gives true.
        let a = m.from_slice(&[2.0f32, 0.0], &[2]);
        let b = m.from_slice(&[4.0f32, 7.0], &[2]);
        assert_eq!(
            a.logical_and(&b, &s).unwrap().to_vec::<bool>(),
            vec![true, false]
        );
        assert_eq!(
            a.logical_not(&s).unwrap().to_vec::<bool>(),
            vec![false, true]
        );
    });
}

#[test]
fn all_and_any_reduce_masks_to_one_answer() {
    with(|m| {
        let s = m.cpu();
        let mixed = m.from_slice(&[true, false], &[2]);
        assert!(!mixed.all(false, &s).unwrap().item::<bool>());
        assert!(mixed.any(false, &s).unwrap().item::<bool>());

        let all_true = m.from_slice(&[true, true], &[2]);
        assert!(all_true.all(false, &s).unwrap().item::<bool>());

        let none = m.from_slice(&[false, false], &[2]);
        assert!(!none.any(false, &s).unwrap().item::<bool>());

        // The reduction is over every axis, and `keepdims` behaves as elsewhere.
        let grid = m.from_slice(&[true, false, true, true], &[2, 2]);
        assert!(!grid.all(false, &s).unwrap().item::<bool>());
        assert_eq!(grid.any(true, &s).unwrap().shape(), vec![1, 1]);
    });
}

#[test]
fn all_and_any_over_axes_reduce_per_row() {
    with(|m| {
        let s = m.cpu();
        let grid = m.from_slice(&[true, false, true, true], &[2, 2]);
        // Row 0 is mixed, row 1 is all true.
        assert_eq!(
            grid.all_axes(&[1], false, &s).unwrap().to_vec::<bool>(),
            vec![false, true]
        );
        assert_eq!(
            grid.any_axes(&[1], false, &s).unwrap().to_vec::<bool>(),
            vec![true, true]
        );
        // Column 0 is all true, column 1 is mixed.
        assert_eq!(
            grid.all_axes(&[0], false, &s).unwrap().to_vec::<bool>(),
            vec![true, false]
        );
    });
}

#[test]
fn empty_reductions_return_the_identity() {
    with(|m| {
        let s = m.cpu();
        let empty = m.from_slice::<bool>(&[], &[0]);
        assert!(empty.all(false, &s).unwrap().item::<bool>());
        assert!(!empty.any(false, &s).unwrap().item::<bool>());
    });
}

#[test]
fn array_equal_compares_whole_arrays() {
    with(|m| {
        let s = m.cpu();
        let a = m.from_slice(&[1.0f32, 2.0, 3.0], &[3]);
        let same = m.from_slice(&[1.0f32, 2.0, 3.0], &[3]);
        let different = m.from_slice(&[1.0f32, 9.0, 3.0], &[3]);

        assert!(a.array_equal(&same, false, &s).unwrap().item::<bool>());
        assert!(!a.array_equal(&different, false, &s).unwrap().item::<bool>());
        // Unlike `equal`, nothing is broadcast: a different shape is unequal
        // even when the elements line up.
        let row = m.from_slice(&[1.0f32, 2.0, 3.0], &[1, 3]);
        assert!(!a.array_equal(&row, false, &s).unwrap().item::<bool>());
        assert_eq!(a.equal(&row, &s).unwrap().shape(), vec![1, 3]);
    });
}

#[test]
fn array_equal_can_treat_nans_as_equal() {
    with(|m| {
        let s = m.cpu();
        let a = m.from_slice(&[1.0f32, f32::NAN], &[2]);
        let b = m.from_slice(&[1.0f32, f32::NAN], &[2]);
        // NaN != NaN, so the default comparison fails.
        assert!(!a.array_equal(&b, false, &s).unwrap().item::<bool>());
        assert!(a.array_equal(&b, true, &s).unwrap().item::<bool>());
    });
}

#[test]
#[should_panic(expected = "does not match shape product")]
fn mismatched_len_and_shape_panics() {
    with(|m| {
        // 5 elements cannot fill a 2x3 (=6) array.
        let _ = m.from_slice(&[1.0f32, 2.0, 3.0, 4.0, 5.0], &[2, 3]);
    });
}

#[test]
fn debug_renders_array_contents() {
    with(|m| {
        let a = m.from_slice(&[1.0f32, 2.0], &[2]);
        let s = format!("{a:?}");
        assert!(s.contains("array"), "unexpected debug output: {s}");
    });
}

#[test]
fn binary_ops_compute_elementwise() {
    with(|m| {
        let s = m.cpu();
        let a = m.from_slice(&[1.0f32, 2.0, 3.0], &[3]);
        let b = m.from_slice(&[4.0f32, 5.0, 6.0], &[3]);

        assert_eq!(a.add(&b, &s).unwrap().to_vec::<f32>(), vec![5.0, 7.0, 9.0]);
        assert_eq!(
            b.subtract(&a, &s).unwrap().to_vec::<f32>(),
            vec![3.0, 3.0, 3.0]
        );
        assert_eq!(
            a.multiply(&b, &s).unwrap().to_vec::<f32>(),
            vec![4.0, 10.0, 18.0]
        );
        assert_eq!(
            b.divide(&a, &s).unwrap().to_vec::<f32>(),
            vec![4.0, 2.5, 2.0]
        );
    });
}

#[test]
fn unary_ops_compute_elementwise() {
    with(|m| {
        let s = m.cpu();
        let a = m.from_slice(&[1.0f32, 4.0, 9.0], &[3]);
        assert_eq!(a.sqrt(&s).unwrap().to_vec::<f32>(), vec![1.0, 2.0, 3.0]);

        let b = m.from_slice(&[-1.0f32, 2.0, -3.0], &[3]);
        assert_eq!(b.abs(&s).unwrap().to_vec::<f32>(), vec![1.0, 2.0, 3.0]);
        assert_eq!(
            b.negative(&s).unwrap().to_vec::<f32>(),
            vec![1.0, -2.0, 3.0]
        );
    });
}

#[test]
fn more_unary_ops() {
    with(|m| {
        let s = m.cpu();
        let a = m.from_slice(&[1.0f32, 2.0, 3.0], &[3]);
        assert_eq!(a.square(&s).unwrap().to_vec::<f32>(), vec![1.0, 4.0, 9.0]);

        // log(1) == 0, and log(e) ~= 1.
        let b = m.from_slice(&[1.0f32, std::f32::consts::E], &[2]);
        let logged = b.log(&s).unwrap().to_vec::<f32>();
        assert!((logged[0]).abs() < 1e-6);
        assert!((logged[1] - 1.0).abs() < 1e-6);

        // sin(0) == 0, cos(0) == 1, tanh(0) == 0.
        let z = m.from_slice(&[0.0f32], &[1]);
        assert!(z.sin(&s).unwrap().item::<f32>().abs() < 1e-6);
        assert!((z.cos(&s).unwrap().item::<f32>() - 1.0).abs() < 1e-6);
        assert!(z.tanh(&s).unwrap().item::<f32>().abs() < 1e-6);
    });
}

#[test]
fn more_binary_ops() {
    with(|m| {
        let s = m.cpu();
        let a = m.from_slice(&[1.0f32, 2.0, 3.0], &[3]);
        let b = m.from_slice(&[3.0f32, 2.0, 1.0], &[3]);

        assert_eq!(
            a.maximum(&b, &s).unwrap().to_vec::<f32>(),
            vec![3.0, 2.0, 3.0]
        );
        assert_eq!(
            a.minimum(&b, &s).unwrap().to_vec::<f32>(),
            vec![1.0, 2.0, 1.0]
        );

        let base = m.from_slice(&[2.0f32, 3.0], &[2]);
        let exp = m.from_slice(&[3.0f32, 2.0], &[2]);
        assert_eq!(
            base.power(&exp, &s).unwrap().to_vec::<f32>(),
            vec![8.0, 9.0]
        );
    });
}

#[test]
fn reductions_produce_scalars() {
    with(|m| {
        let s = m.cpu();
        let a = m.from_slice(&[1.0f32, 2.0, 3.0, 4.0], &[4]);

        let sum = a.sum(false, &s).unwrap();
        assert_eq!(sum.ndim(), 0);
        assert_eq!(sum.item::<f32>(), 10.0);

        assert_eq!(a.mean(false, &s).unwrap().item::<f32>(), 2.5);
    });
}

#[test]
fn keepdims_retains_rank() {
    with(|m| {
        let s = m.cpu();
        let a = m.from_slice(&[1.0f32, 2.0, 3.0, 4.0], &[2, 2]);
        let sum = a.sum(true, &s).unwrap();
        assert_eq!(sum.shape(), vec![1, 1]);
        assert_eq!(sum.item::<f32>(), 10.0);
    });
}

#[test]
fn axis_reductions() {
    with(|m| {
        let s = m.cpu();
        // [[1, 2, 3],
        //  [4, 5, 6]]
        let a = m.from_slice(&[1.0f32, 2.0, 3.0, 4.0, 5.0, 6.0], &[2, 3]);

        // Sum over axis 0 (rows) -> [5, 7, 9], shape [3].
        let col_sums = a.sum_axes(&[0], false, &s).unwrap();
        assert_eq!(col_sums.shape(), vec![3]);
        assert_eq!(col_sums.to_vec::<f32>(), vec![5.0, 7.0, 9.0]);

        // Sum over axis 1 (cols) -> [6, 15], shape [2].
        let row_sums = a.sum_axes(&[1], false, &s).unwrap();
        assert_eq!(row_sums.to_vec::<f32>(), vec![6.0, 15.0]);

        // keepdims keeps the reduced axis as size 1.
        let kept = a.sum_axes(&[1], true, &s).unwrap();
        assert_eq!(kept.shape(), vec![2, 1]);

        // max / min over axis 0; mean / prod over axis 1.
        assert_eq!(
            a.max_axes(&[0], false, &s).unwrap().to_vec::<f32>(),
            vec![4.0, 5.0, 6.0]
        );
        assert_eq!(
            a.min_axes(&[0], false, &s).unwrap().to_vec::<f32>(),
            vec![1.0, 2.0, 3.0]
        );
        assert_eq!(
            a.mean_axes(&[1], false, &s).unwrap().to_vec::<f32>(),
            vec![2.0, 5.0]
        );
        assert_eq!(
            a.prod_axes(&[1], false, &s).unwrap().to_vec::<f32>(),
            vec![6.0, 120.0]
        );
    });
}

#[test]
fn empty_axes_reduction_is_noop() {
    with(|m| {
        // Reducing over no axes must not pass a dangling pointer to C; MLX
        // treats it as an identity that leaves the values unchanged.
        let s = m.cpu();
        let a = m.from_slice(&[1.0f32, 2.0, 3.0, 4.0], &[2, 2]);
        let r = a.sum_axes(&[], false, &s).unwrap();
        assert_eq!(r.shape(), vec![2, 2]);
        assert_eq!(r.to_vec::<f32>(), vec![1.0, 2.0, 3.0, 4.0]);
    });
}

#[test]
fn reshape_changes_shape_not_data() {
    with(|m| {
        let s = m.cpu();
        let a = m.from_slice(&[1.0f32, 2.0, 3.0, 4.0, 5.0, 6.0], &[2, 3]);
        let r = a.reshape(&[3, 2], &s).unwrap();
        assert_eq!(r.shape(), vec![3, 2]);
        assert_eq!(r.to_vec::<f32>(), vec![1.0, 2.0, 3.0, 4.0, 5.0, 6.0]);
    });
}

#[test]
fn row_contiguity_detection() {
    with(|m| {
        let s = m.cpu();
        let a = m.from_slice(&[1.0f32, 2.0, 3.0, 4.0, 5.0, 6.0], &[2, 3]);
        // Freshly built arrays are row-contiguous (fast path in to_vec).
        assert!(a.is_row_contiguous());
        // A transpose is a strided view. Strides only reflect the real layout
        // after evaluation (MLX is lazy), which is exactly when to_vec checks.
        let t = a.transpose(&s).unwrap();
        t.eval();
        assert!(!t.is_row_contiguous());
    });
}

#[test]
fn transpose_reverses_axes() {
    with(|m| {
        let s = m.cpu();
        // [[1, 2, 3],
        //  [4, 5, 6]]  ->  [[1, 4], [2, 5], [3, 6]]
        let a = m.from_slice(&[1.0f32, 2.0, 3.0, 4.0, 5.0, 6.0], &[2, 3]);
        let t = a.transpose(&s).unwrap();
        assert_eq!(t.shape(), vec![3, 2]);
        assert_eq!(t.to_vec::<f32>(), vec![1.0, 4.0, 2.0, 5.0, 3.0, 6.0]);
    });
}

#[test]
fn broadcast_to_expands() {
    with(|m| {
        let s = m.cpu();
        let a = m.from_slice(&[1.0f32, 2.0, 3.0], &[3]);
        let b = a.broadcast_to(&[2, 3], &s).unwrap();
        assert_eq!(b.shape(), vec![2, 3]);
        assert_eq!(b.to_vec::<f32>(), vec![1.0, 2.0, 3.0, 1.0, 2.0, 3.0]);
    });
}

#[test]
fn squeeze_and_expand_dims() {
    with(|m| {
        let s = m.cpu();
        let a = m.from_slice(&[1.0f32, 2.0, 3.0], &[1, 3, 1]);
        let sq = a.squeeze(&s).unwrap();
        assert_eq!(sq.shape(), vec![3]);

        let ex = sq.expand_dims(0, &s).unwrap();
        assert_eq!(ex.shape(), vec![1, 3]);
    });
}

#[test]
fn incompatible_shapes_return_err() {
    with(|m| {
        let s = m.cpu();
        let a = m.from_slice(&[1.0f32, 2.0, 3.0], &[3]);
        let b = m.from_slice(&[1.0f32, 2.0], &[2]);
        // Broadcasting [3] against [2] is invalid; MLX should report an error
        // rather than aborting the process.
        let err = a.add(&b, &s).unwrap_err();
        assert!(
            !err.message().is_empty(),
            "expected a non-empty error message"
        );
    });
}

#[test]
fn item_reads_scalar() {
    with(|m| {
        let a = m.from_slice(&[42.0f32], &[]);
        assert_eq!(a.item::<f32>(), 42.0);
        let b = m.from_slice(&[7i32], &[]);
        assert_eq!(b.item::<i32>(), 7);
    });
}

#[test]
#[should_panic(expected = "requires a single-element array")]
fn item_on_non_scalar_panics() {
    with(|m| {
        let a = m.from_slice(&[1.0f32, 2.0, 3.0], &[3]);
        let _ = a.item::<f32>();
    });
}

#[test]
fn to_vec_is_generic_over_dtype() {
    with(|m| {
        let ints = m.from_slice(&[1i32, 2, 3], &[3]);
        assert_eq!(ints.to_vec::<i32>(), vec![1, 2, 3]);
        let floats = m.from_slice(&[1.5f32, 2.5], &[2]);
        assert_eq!(floats.to_vec::<f32>(), vec![1.5, 2.5]);
    });
}

#[test]
#[should_panic(expected = "array dtype int32 does not match requested element type")]
fn to_vec_wrong_dtype_panics() {
    with(|m| {
        let ints = m.from_slice(&[1i32, 2, 3], &[3]);
        let _ = ints.to_vec::<f32>();
    });
}

#[test]
fn to_vec_of_empty_array_is_empty() {
    with(|m| {
        // A zero-element array must not deref a (possibly null) data pointer.
        let empty = m.from_slice::<f32>(&[], &[0]);
        assert_eq!(empty.size(), 0);
        assert!(empty.to_vec::<f32>().is_empty());
    });
}

#[test]
fn operators_match_methods() {
    with(|m| {
        // Operators run on the default stream; results should equal the
        // explicit-method equivalents.
        let a = m.from_slice(&[10.0f32, 20.0, 30.0], &[3]);
        let b = m.from_slice(&[1.0f32, 2.0, 3.0], &[3]);

        assert_eq!((&a + &b).to_vec::<f32>(), vec![11.0, 22.0, 33.0]);
        assert_eq!((&a - &b).to_vec::<f32>(), vec![9.0, 18.0, 27.0]);
        assert_eq!((&a * &b).to_vec::<f32>(), vec![10.0, 40.0, 90.0]);
        assert_eq!((&a / &b).to_vec::<f32>(), vec![10.0, 10.0, 10.0]);
        assert_eq!((-&a).to_vec::<f32>(), vec![-10.0, -20.0, -30.0]);

        // Operands are borrowed, so `a` is still usable here.
        assert_eq!(a.to_vec::<f32>(), vec![10.0, 20.0, 30.0]);
    });
}

#[test]
fn assigning_operators_match_methods() {
    with(|m| {
        let b = m.from_slice(&[1.0f32, 2.0, 3.0], &[3]);

        let mut a = m.from_slice(&[10.0f32, 20.0, 30.0], &[3]);
        a += &b;
        assert_eq!(a.to_vec::<f32>(), vec![11.0, 22.0, 33.0]);
        a -= &b;
        assert_eq!(a.to_vec::<f32>(), vec![10.0, 20.0, 30.0]);
        a *= &b;
        assert_eq!(a.to_vec::<f32>(), vec![10.0, 40.0, 90.0]);
        a /= &b;
        assert_eq!(a.to_vec::<f32>(), vec![10.0, 20.0, 30.0]);

        // The right-hand side is borrowed, so `b` survives all four.
        assert_eq!(b.to_vec::<f32>(), vec![1.0, 2.0, 3.0]);
    });
}

#[test]
fn assigning_operators_take_scalars() {
    with(|m| {
        let mut a = m.from_slice(&[10.0f32, 20.0], &[2]);
        a += 5.0f32;
        assert_eq!(a.to_vec::<f32>(), vec![15.0, 25.0]);
        a *= 2.0f32;
        assert_eq!(a.to_vec::<f32>(), vec![30.0, 50.0]);
        a -= 10.0f32;
        assert_eq!(a.to_vec::<f32>(), vec![20.0, 40.0]);
        a /= 4.0f32;
        assert_eq!(a.to_vec::<f32>(), vec![5.0, 10.0]);
    });
}

#[test]
fn assigning_operators_rebind_rather_than_mutate() {
    with(|m| {
        // Broadcasting means the result need not even have the same shape as the
        // left operand, which an in-place op could not do.
        let mut a = m.from_slice(&[1.0f32, 2.0], &[2]);
        a += &m.from_slice(&[10.0f32, 20.0, 30.0, 40.0], &[2, 2]);
        assert_eq!(a.shape(), vec![2, 2]);
        assert_eq!(a.to_vec::<f32>(), vec![11.0, 22.0, 31.0, 42.0]);

        // And MLX's promotion applies, so the dtype can change under `a`.
        let mut ints = m.from_slice(&[1i32, 2], &[2]);
        assert_eq!(ints.dtype(), Dtype::Int32);
        ints *= 0.5f32;
        assert_eq!(ints.dtype(), Dtype::Float32);
        assert_eq!(ints.to_vec::<f32>(), vec![0.5, 1.0]);
    });
}

#[test]
#[should_panic(expected = "Array::subtract failed: MLX error:")]
fn assigning_operator_panic_carries_mlx_message() {
    with(|m| {
        let mut a = m.from_slice(&[1.0f32, 2.0, 3.0], &[3]);
        a -= &m.from_slice(&[1.0f32, 2.0], &[2]);
    });
}

#[test]
#[should_panic(expected = "Array::add failed: MLX error:")]
fn operator_panic_carries_mlx_message() {
    with(|m| {
        // A failing operator panics with both the op name and the underlying
        // MLX diagnostic, not a generic message.
        let a = m.from_slice(&[1.0f32, 2.0, 3.0], &[3]);
        let b = m.from_slice(&[1.0f32, 2.0], &[2]);
        let _ = &a + &b;
    });
}

#[test]
fn reports_version() {
    with(|m| {
        assert!(!m.run(version()).is_empty());
        assert_eq!(m.run(version()), "0.29.3");
        // No handler is needed: nothing of this can fail.
        let once = ["NewString", "Version", "StringData", "FreeString"];
        assert_eq!(m.calls(), [once, once].concat());
    });
}

#[test]
fn constructs_default_streams() {
    with(|m| {
        // Just exercises construction + drop on both devices.
        let _gpu = m.gpu();
        let _cpu = m.cpu();
        let _default = m.default_stream();
    });
}

#[test]
fn streams_are_the_defaults_of_their_devices() {
    with(|m| {
        assert_eq!(m.gpu().lane(), (Device::Gpu, 1));
        assert_eq!(m.cpu().lane(), (Device::Cpu, 0));
        // The initial default is the GPU's.
        assert_eq!(m.default_stream().lane(), (Device::Gpu, 1));
    });
}

#[test]
fn the_default_stream_follows_set_as_default() {
    with(|m| {
        let cpu = m.cpu();
        m.calls();
        cpu.set_as_default();
        assert_eq!(
            m.calls(),
            [
                "Install",
                "NewDevice",
                "StreamDevice",
                "SetDefaultDevice",
                "FreeDevice",
                "SetDefaultStream"
            ]
        );
        let now = m.default_stream();
        assert_eq!(now.lane(), cpu.lane());
        assert_eq!(
            m.calls(),
            ["Install", "NewDevice", "DefaultDevice", "NewStream", "DefaultStream", "FreeDevice"]
        );
        // Asking for the default does not change it.
        assert_eq!(m.default_stream().lane(), cpu.lane());
        m.gpu().set_as_default();
        assert_eq!(m.default_stream().lane(), (Device::Gpu, 1));
    });
}

#[test]
fn operators_run_on_the_current_default() {
    with(|m| {
        let a = m.from_slice(&[1.0f32, 2.0], &[2]);
        let _ = &a + &a;
        assert_eq!(m.lanes(), [(Device::Gpu, 1)]);
        m.cpu().set_as_default();
        let _ = &a + &a;
        let _ = 2.0f32 * &a;
        let _ = -&a;
        assert_eq!(m.lanes(), [(Device::Cpu, 0); 3]);
    });
}

#[test]
fn float64_works_on_the_cpu() {
    with(|m| {
        let wide = m.from_slice(&[1.0f64, 2.0], &[2]);
        let sum = wide.add(&wide, &m.cpu()).unwrap();
        assert_eq!(sum.dtype(), Dtype::Float64);
        assert_eq!(sum.to_vec::<f64>(), vec![2.0, 4.0]);
        assert!(wide.add(&wide, &m.gpu()).is_err());
    });
}

#[test]
fn an_operation_makes_its_calls_in_order() {
    with(|m| {
        let s = m.cpu();
        let a = m.from_slice(&[1.0f32, 2.0, 3.0], &[3]);
        let b = m.from_slice(&[1.0f32, 2.0], &[2]);
        m.calls();
        let sum = a.add(&a, &s).unwrap();
        assert_eq!(m.calls(), ["Install", "NewArray", "Invoke"]);
        drop(sum);
        assert_eq!(m.calls(), ["FreeArray"]);
        // A failed operation frees the result handle.
        assert!(a.add(&b, &s).is_err());
        assert_eq!(m.calls(), ["Install", "NewArray", "Invoke", "FreeArray"]);
    });
}

#[test]
fn an_operator_frees_its_stream() {
    with(|m| {
        let a = m.from_slice(&[1.0f32, 2.0, 3.0], &[3]);
        m.calls();
        let before = m.in_use();
        let sum = &a + &a;
        assert_eq!(
            m.calls(),
            [
                "Install",
                "NewDevice",
                "DefaultDevice",
                "NewStream",
                "DefaultStream",
                "FreeDevice",
                "Install",
                "NewArray",
                "Invoke",
                "FreeStream"
            ]
        );
        // The result is all that is left.
        assert_eq!(m.in_use(), before + 1);
        drop(sum);
    });
}

#[test]
fn a_scalar_operand_is_built_first_and_freed_last() {
    with(|m| {
        let a = m.from_slice(&[1.0f32, 2.0, 3.0], &[3]);
        m.calls();
        let before = m.in_use();
        let scaled = &a * 2.0f32;
        let calls = m.calls();
        assert_eq!(calls[..2], ["Install", "NewScalar"]);
        assert_eq!(calls[calls.len() - 2..], ["FreeStream", "FreeArray"]);
        assert_eq!(m.in_use(), before + 1);
        assert_eq!(scaled.to_vec::<f32>(), vec![2.0, 4.0, 6.0]);
    });
}

#[test]
fn a_scalar_operand_is_a_zero_dim_array() {
    with(|m| {
        let s = m.gpu();
        let a = m.from_slice(&[1.0f32, 2.0, 4.0], &[3]);
        let ten = m.from_scalar(10.0f32);
        assert_eq!(
            (10.0f32 - &a).to_vec::<f32>(),
            ten.subtract(&a, &s).unwrap().to_vec::<f32>()
        );
        assert_eq!(
            (&a / 10.0f32).to_vec::<f32>(),
            a.divide(&ten, &s).unwrap().to_vec::<f32>()
        );
    });
}

#[test]
fn an_assignment_frees_what_it_replaces() {
    with(|m| {
        let mut a = m.from_slice(&[1.0f32, 2.0], &[2]);
        let b = m.from_slice(&[10.0f32, 20.0], &[2]);
        let before = m.in_use();
        m.calls();
        a += &b;
        let calls = m.calls();
        // The old handle goes right after the operation.
        assert_eq!(calls[calls.len() - 3..], ["Invoke", "FreeArray", "FreeStream"]);
        assert_eq!(m.in_use(), before);
        a *= 3.0f32;
        assert_eq!(m.in_use(), before);
        assert_eq!(a.to_vec::<f32>(), vec![33.0, 66.0]);
    });
}

#[test]
fn a_failed_assignment_keeps_its_target() {
    with(|m| {
        let mut a = m.from_slice(&[1.0f32, 2.0, 3.0], &[3]);
        let b = m.from_slice(&[1.0f32, 2.0], &[2]);
        let before = m.in_use();
        let error = m.run(assign_op(Arith::Divide, a.get_mut(), b.get())).err().unwrap();
        assert_eq!(error.method, "divide");
        assert_eq!(m.in_use(), before);
        assert_eq!(a.to_vec::<f32>(), vec![1.0, 2.0, 3.0]);

        m.sabotage("no more memory");
        let error = m.run(assign_scalar_op(Arith::Add, a.get_mut(), 1.0f32, Dtype::Float32));
        assert_eq!(error.err().unwrap().describe(), "Array::add failed: MLX error: no more memory");
        assert_eq!(m.in_use(), before);
        assert_eq!(a.to_vec::<f32>(), vec![1.0, 2.0, 3.0]);
    });
}

#[test]
fn operator_errors_name_their_methods() {
    with(|m| {
        let a = m.from_slice(&[1.0f32], &[1]);
        let names = [
            (Arith::Add, "add"),
            (Arith::Subtract, "subtract"),
            (Arith::Multiply, "multiply"),
            (Arith::Divide, "divide"),
        ];
        for (op, name) in names {
            m.sabotage("broken");
            let error = m.run(array_op(op, a.get(), a.get())).err().unwrap();
            assert_eq!(error.describe(), format!("Array::{name} failed: MLX error: broken"));
            m.sabotage("broken");
            let error = m.run(scalar_rhs_op(op, a.get(), 1i32, Dtype::Int32)).err().unwrap();
            assert_eq!(error.describe(), format!("Array::{name} failed: MLX error: broken"));
            m.sabotage("broken");
            let error = m.run(scalar_lhs_op(op, 1i32, Dtype::Int32, a.get())).err().unwrap();
            assert_eq!(error.describe(), format!("Array::{name} failed: MLX error: broken"));
        }
        m.sabotage("broken");
        let error = m.run(neg(a.get())).err().unwrap();
        assert_eq!(error.describe(), "Array::negative failed: MLX error: broken");
        assert_eq!(error.error.message(), "broken");
    });
}

#[test]
fn full_frees_the_value_that_it_spreads() {
    with(|m| {
        let s = m.cpu();
        m.calls();
        let a = m.full(&[2], 3i32, &s).unwrap();
        assert_eq!(
            m.calls(),
            ["Install", "NewScalar", "Install", "NewArray", "Invoke", "FreeArray"]
        );
        assert_eq!(a.to_vec::<i32>(), vec![3, 3]);
        let before = m.in_use();
        m.sabotage("too large");
        let error = m.full(&[2], 3i32, &s).unwrap_err();
        assert_eq!(error.describe(), "MLX error: too large");
        assert_eq!(m.in_use(), before);
    });
}

#[test]
fn row_contiguous_arrays_are_read_at_once() {
    with(|m| {
        let a = m.from_slice(&[1.0f32, 2.0, 3.0, 4.0], &[2, 2]);
        m.calls();
        assert_eq!(a.to_vec::<f32>(), vec![1.0, 2.0, 3.0, 4.0]);
        assert_eq!(
            m.calls(),
            ["Install", "Eval", "Ndim", "Shape", "Strides", "Dtype", "Size", "Copy"]
        );
    });
}

#[test]
fn other_arrays_are_read_through_a_copy_on_the_cpu() {
    with(|m| {
        let s = m.gpu();
        let a = m.from_slice(&[1.0f32, 2.0, 3.0, 4.0, 5.0, 6.0], &[2, 3]);
        let t = a.transpose(&s).unwrap();
        m.calls();
        m.lanes();
        let before = m.in_use();
        assert_eq!(t.to_vec::<f32>(), vec![1.0, 4.0, 2.0, 5.0, 3.0, 6.0]);
        assert_eq!(m.lanes(), [(Device::Cpu, 0)]);
        assert_eq!(m.in_use(), before);
        assert_eq!(
            m.calls(),
            [
                "Install",
                "Eval",
                "Ndim",
                "Shape",
                "Strides",
                "Install",
                "NewCpuStream",
                "Install",
                "NewArray",
                "Invoke",
                "FreeStream",
                "Install",
                "Eval",
                "Dtype",
                "Size",
                "Copy",
                "FreeArray"
            ]
        );
        // The array itself is not changed by being read.
        assert_eq!(t.shape(), vec![3, 2]);
        assert_eq!(t.to_vec::<f32>(), vec![1.0, 4.0, 2.0, 5.0, 3.0, 6.0]);
    });
}

#[test]
fn a_copy_that_cannot_be_made_is_reported() {
    with(|m| {
        let s = m.cpu();
        let a = m.from_slice(&[1i32, 2, 3, 4], &[2, 2]).transpose(&s).unwrap();
        let before = m.in_use();
        m.sabotage("out of memory");
        let error = a.try_to_vec::<i32>().unwrap_err();
        assert!(matches!(error, ToVecError::Contiguous { .. }));
        assert_eq!(
            error.describe(),
            "to_vec: failed to make array contiguous: MLX error: out of memory"
        );
        assert_eq!(m.in_use(), before);
    });
}

#[test]
fn the_wrong_element_type_is_reported_on_both_paths() {
    with(|m| {
        let s = m.cpu();
        let a = m.from_slice(&[1i32, 2, 3, 4], &[2, 2]);
        let text = "array dtype int32 does not match requested element type";
        m.calls();
        assert_eq!(a.try_to_vec::<f32>().unwrap_err().describe(), text);
        assert!(!m.calls().contains(&"Copy".to_string()));
        let t = a.transpose(&s).unwrap();
        let before = m.in_use();
        m.calls();
        assert!(matches!(
            t.try_to_vec::<bool>(),
            Err(ToVecError::Dtype { found: Dtype::Int32 })
        ));
        // The copy is freed even so, and its buffer is not touched.
        assert!(!m.calls().contains(&"Copy".to_string()));
        assert_eq!(m.in_use(), before);
        assert_eq!(t.try_to_vec::<f32>().unwrap_err().describe(), text);
    });
}

#[test]
fn empty_arrays_are_read_without_a_buffer() {
    with(|m| {
        let empty = m.from_slice::<f32>(&[], &[2, 0, 3]);
        m.calls();
        assert!(empty.to_vec::<f32>().is_empty());
        assert_eq!(
            m.calls(),
            ["Install", "Eval", "Ndim", "Shape", "Strides", "Dtype", "Size"]
        );
        // Not even then is another element type let through.
        assert!(empty.try_to_vec::<i32>().is_err());
    });
}

#[test]
fn values_are_read_back_in_order() {
    with(|m| {
        let values: Vec<i32> = (0..24).collect();
        for shape in [vec![24], vec![4, 6], vec![2, 3, 4], vec![1, 24, 1], vec![2, 3, 4, 1]] {
            let a = m.from_slice(&values, &shape);
            assert_eq!(a.to_vec::<i32>(), values);
            assert_eq!(a.shape(), shape);
            assert_eq!(a.size(), 24);
            assert_eq!(a.dtype(), Dtype::Int32);
        }
        let flags = m.from_slice(&[true, false], &[2]);
        assert_eq!(flags.to_vec::<bool>(), vec![true, false]);
        let bytes = m.from_slice(&[7u8], &[1]);
        assert_eq!(bytes.to_vec::<u8>(), vec![7]);
    });
}

#[test]
fn a_buffer_is_read_as_it_is_stored() {
    with(|m| {
        let s = m.cpu();
        let a = m.from_slice(&[1i32, 2, 3, 4, 5, 6], &[2, 3]);
        let read = m.run(a.get().read_buffer::<i32>(Dtype::Int32));
        assert_eq!(read, Ok(vec![1, 2, 3, 4, 5, 6]));
        // A transposed view shares the buffer, so its elements come in storage order.
        let t = a.transpose(&s).unwrap();
        t.eval();
        let read = m.run(t.get().read_buffer::<i32>(Dtype::Int32));
        assert_eq!(read, Ok(vec![1, 2, 3, 4, 5, 6]));
        let read = m.run(t.get().read_buffer::<bool>(Dtype::Bool));
        assert_eq!(read, Err(Dtype::Int32));
    });
}

#[test]
fn a_scalar_is_a_slice_of_one() {
    with(|m| {
        let s = m.cpu();
        let scalar = m.from_scalar(2.5f32);
        let slice = m.from_slice(&[2.5f32], &[]);
        assert_eq!(scalar.shape(), slice.shape());
        assert_eq!(scalar.dtype(), slice.dtype());
        assert!(scalar.array_equal(&slice, false, &s).unwrap().item::<bool>());
        assert_eq!(scalar.to_vec::<f32>(), vec![2.5]);
    });
}

#[test]
fn item_reads_any_single_element() {
    with(|m| {
        let a = m.from_slice(&[7i32], &[1, 1]);
        m.calls();
        assert_eq!(a.item::<i32>(), 7);
        assert_eq!(m.calls(), ["Install", "Eval", "Size", "Item"]);
        // MLX casts to the wanted type.
        assert_eq!(a.item::<f32>(), 7.0);
        assert_eq!(a.try_item::<i32>(), Ok(7));
    });
}

#[test]
fn item_refuses_other_sizes() {
    with(|m| {
        let three = m.from_slice(&[1.0f32, 2.0, 3.0], &[3]);
        m.calls();
        let error = three.try_item::<f32>().unwrap_err();
        assert_eq!(m.calls(), ["Install", "Eval", "Size"]);
        assert_eq!(error, NotScalar { size: 3 });
        assert_eq!(
            error.describe(),
            "item() requires a single-element array, but this array has 3 elements"
        );
        let none = m.from_slice::<f32>(&[], &[0]);
        assert_eq!(none.try_item::<f32>().unwrap_err().size, 0);
    });
}

#[test]
fn empty_lists_are_null() {
    with(|m| {
        let s = m.cpu();
        let scalar = m.from_slice(&[1.0f32], &[]);
        assert_eq!(m.lists(), [Some(1), None]);
        let empty = m.from_slice::<f32>(&[], &[0]);
        assert_eq!(m.lists(), [None, Some(1)]);
        let _ = m.zeros::<f32>(&[], &s).unwrap();
        let _ = m.ones::<f32>(&[2, 1], &s).unwrap();
        let _ = m.full(&[], 1i32, &s).unwrap();
        let _ = scalar.reshape(&[], &s).unwrap();
        let _ = scalar.broadcast_to(&[], &s).unwrap();
        let _ = empty.sum_axes(&[], true, &s).unwrap();
        let _ = empty.max_axes(&[0], true, &s);
        assert_eq!(m.lists(), [None, Some(2), None, None, None, None, Some(1)]);
    });
}

#[test]
fn the_handler_comes_first() {
    with(|m| {
        let s = m.cpu();
        let a = m.from_slice(&[1.0f32], &[1]);
        m.calls();
        let first = |m: &Mlx| m.calls().remove(0);
        a.eval();
        assert_eq!(first(m), "Install");
        let _ = format!("{a:?}");
        assert_eq!(first(m), "Install");
        let _ = m.arange::<f32>(0.0, 1.0, 0.25, &s);
        assert_eq!(first(m), "Install");
        let _ = a.to_vec::<f32>();
        assert_eq!(first(m), "Install");
        let _ = 1.0f32 + &a;
        assert_eq!(first(m), "Install");
        // Plain questions cannot fail.
        let _ = (a.size(), a.ndim(), a.shape(), a.strides(), a.dtype());
        assert_eq!(m.calls(), ["Size", "Ndim", "Ndim", "Shape", "Ndim", "Strides", "Dtype"]);
    });
}

#[test]
fn strides_count_elements() {
    with(|m| {
        let s = m.cpu();
        let a = m.from_slice(&[1i32, 2, 3, 4, 5, 6], &[2, 3]);
        assert_eq!(a.strides(), vec![3, 1]);
        let t = a.transpose(&s).unwrap();
        t.eval();
        assert_eq!(t.strides(), vec![1, 3]);
        let row = m.from_slice(&[1i32, 2, 3], &[3]);
        let b = row.broadcast_to(&[2, 3], &s).unwrap();
        b.eval();
        assert_eq!(b.strides(), vec![0, 1]);
        assert!(!b.is_row_contiguous());
        let dense = b.contiguous(&s).unwrap();
        dense.eval();
        assert!(dense.is_row_contiguous());
        assert_eq!(dense.to_vec::<i32>(), b.to_vec::<i32>());
    });
}

#[test]
fn exponentials_and_descriptions() {
    with(|m| {
        let s = m.cpu();
        let a = m.from_slice(&[0.0f32, 1.0], &[2]);
        let e = a.exp(&s).unwrap().to_vec::<f32>();
        assert_eq!(e[0], 1.0);
        assert!((e[1] - std::f32::consts::E).abs() < 1e-6);
        m.calls();
        assert_eq!(format!("{a:?}"), "array([0.0, 1.0], dtype=float32)");
        assert_eq!(
            m.calls(),
            ["Install", "NewString", "ArrayText", "StringData", "FreeString"]
        );
    });
}

#[test]
fn lengths_that_do_not_fill_a_shape_are_refused() {
    let data = [1.0f32, 2.0, 3.0, 4.0, 5.0];
    let refused = |shape: &[i32]| Array::from_slice(&data, Dtype::Float32, shape).err();
    assert_eq!(refused(&[5]), None);
    assert_eq!(refused(&[1, 5, 1]), None);
    let mismatch = refused(&[2, 3]).unwrap();
    assert_eq!(mismatch, ShapeError::Mismatch { len: 5, product: 6 });
    assert_eq!(mismatch.describe(), "data length 5 does not match shape product 6");
    let scalar = refused(&[]).unwrap();
    assert_eq!(scalar.describe(), "data length 5 does not match shape product 1");
    let negative = refused(&[-5]).unwrap();
    assert_eq!(negative.describe(), "data length 5 does not match shape product -5");
    // Two negative dimensions can make the product match.
    assert_eq!(refused(&[-5, -1]), None);
    let huge = refused(&[i32::MAX, i32::MAX, i32::MAX]).unwrap();
    assert_eq!(huge, ShapeError::Overflow);
    assert_eq!(huge.describe(), "attempt to multiply with overflow");
    // However large the other dimensions are, a shape with a zero spans no elements.
    let none: [f32; 0] = [];
    let shape = [65536, 65536, 65536, 65536, 0];
    assert!(Array::from_slice(&none, Dtype::Float32, &shape).is_ok());
}

#[test]
fn products_stay_within_range() {
    assert_eq!(shape_product(&[]), Some(1));
    assert_eq!(shape_product(&[2, 3, 4]), Some(24));
    assert_eq!(shape_product(&[2, 0, 4]), Some(0));
    assert_eq!(shape_product(&[-2, 3]), Some(-6));
    assert_eq!(shape_product(&[i32::MAX, i32::MAX]), Some(4611686014132420609));
    assert_eq!(shape_product(&[i32::MIN, i32::MIN, 2]), None);
    assert_eq!(shape_product(&[i32::MIN, i32::MIN, -2]), Some(i64::MIN));
    // The product itself has to fit, not what it is on the way.
    assert_eq!(shape_product(&[i32::MAX, i32::MAX, i32::MAX, 0]), Some(0));
    assert_eq!(shape_product(&[i32::MIN, i32::MIN, 2, -1]), Some(i64::MIN));
    assert_eq!(shape_product(&[i32::MAX, i32::MAX, i32::MAX, 1]), None);
    assert_eq!(check_len(0, &[65536, 65536, 65536, 65536, 0]), Ok(()));
    assert_eq!(shape_product(&[0, i32::MAX, i32::MAX, i32::MAX]), Some(0));
    assert_eq!(check_len(6, &[2, 3]), Ok(()));
    assert_eq!(check_len(0, &[7, 0]), Ok(()));
    assert_eq!(check_len(1, &[]), Ok(()));
    assert_eq!(check_len(2, &[3]), Err(ShapeError::Mismatch { len: 2, product: 3 }));
}

#[test]
fn row_contiguity_of_layouts() {
    assert!(is_row_contiguous(&[], &[]));
    assert!(is_row_contiguous(&[2, 3], &[3, 1]));
    assert!(!is_row_contiguous(&[3, 2], &[1, 3]));
    // A broadcast view steps over nothing.
    assert!(!is_row_contiguous(&[2, 3], &[0, 1]));
    // The stride of an axis of length one is free.
    assert!(is_row_contiguous(&[2, 1, 3], &[3, 99, 1]));
    assert!(is_row_contiguous(&[1], &[0]));
    assert!(!is_row_contiguous(&[2, 1], &[2, 1]));
    // Without elements the strides still count.
    assert!(is_row_contiguous(&[2, 0], &[0, 1]));
    assert!(!is_row_contiguous(&[2, 0], &[5, 1]));
    // The number of elements need not fit.
    let big = i32::MAX;
    assert!(!is_row_contiguous(&[2, big, big, big, big], &[0, 0, 0, 0, 1]));
    assert!(is_row_contiguous(&[0, 1, 1], &[1, 7, 7]));
}

#[test]
fn element_types_have_their_codes_and_names() {
    let all = [
        (Dtype::Bool, "bool"),
        (Dtype::Uint8, "uint8"),
        (Dtype::Uint16, "uint16"),
        (Dtype::Uint32, "uint32"),
        (Dtype::Uint64, "uint64"),
        (Dtype::Int8, "int8"),
        (Dtype::Int16, "int16"),
        (Dtype::Int32, "int32"),
        (Dtype::Int64, "int64"),
        (Dtype::Float16, "float16"),
        (Dtype::Float32, "float32"),
        (Dtype::Float64, "float64"),
        (Dtype::Bfloat16, "bfloat16"),
        (Dtype::Complex64, "complex64"),
    ];
    for (code, (dtype, name)) in all.into_iter().enumerate() {
        assert_eq!(dtype.as_raw(), code as u32);
        assert_eq!(Dtype::from_raw(code as u32), dtype);
        assert_eq!(dtype.name(), name);
    }
}

#[test]
fn statuses_become_results() {
    assert!(mlxcore::error::check(0, String::new()).is_ok());
    assert!(mlxcore::error::check(0, "ignored".to_string()).is_ok());
    let error = mlxcore::error::check(1, "[add] shapes".to_string()).unwrap_err();
    assert_eq!(error.message(), "[add] shapes");
    assert_eq!(error.describe(), "MLX error: [add] shapes");
    assert!(mlxcore::error::check(-1, String::new()).is_err());
}

#[test]
fn numbers_are_written_in_decimal() {
    for n in [0, 7, 10, 99, 100, 1234567890, u64::MAX] {
        let mut text = String::from("n = ");
        append_decimal(&mut text, n);
        assert_eq!(text, format!("n = {n}"));
    }
    for n in [0, 5, -5, -10, i64::MAX, i64::MIN] {
        let mut text = String::new();
        append_signed(&mut text, n);
        assert_eq!(text, format!("{n}"));
    }
}

#[test]
fn operands_read_the_same_after_operations() {
    with(|m| {
        let s = m.cpu();
        let a = m.from_slice(&[1.5f32, -2.5], &[2]);
        let b = m.from_slice(&[4.0f32, 8.0], &[2]);
        let (x, y) = (a.to_vec::<f32>(), b.to_vec::<f32>());
        let _ = &a + &b;
        let _ = &a * 3.0f32;
        let _ = a.astype::<i32>(&s).unwrap();
        let _ = a.reshape(&[2, 1], &s).unwrap();
        let mut c = m.from_slice(&[0.5f32, 0.5], &[2]);
        c -= &a;
        assert_eq!(a.to_vec::<f32>(), x);
        assert_eq!(b.to_vec::<f32>(), y);
    });
}

#[test]
fn reshapes_need_the_same_number_of_elements() {
    with(|m| {
        let s = m.cpu();
        let a = m.from_slice(&[1i32, 2, 3, 4, 5, 6], &[2, 3]);
        let column = a.reshape(&[6, 1], &s).unwrap();
        assert_eq!(column.shape(), vec![6, 1]);
        assert_eq!(column.dtype(), Dtype::Int32);
        assert_eq!(column.to_vec::<i32>(), a.to_vec::<i32>());
        let back = column.reshape(&[2, 3], &s).unwrap();
        assert_eq!(back.shape(), a.shape());
        assert_eq!(back.to_vec::<i32>(), a.to_vec::<i32>());
        assert!(a.reshape(&[4], &s).is_err());
        assert!(a.reshape(&[], &s).is_err());
        assert_eq!(a.to_vec::<i32>(), vec![1, 2, 3, 4, 5, 6]);
    });
}

#[test]
fn transposing_twice_restores() {
    with(|m| {
        let s = m.cpu();
        let values: Vec<i32> = (0..24).collect();
        let a = m.from_slice(&values, &[2, 3, 4]);
        let t = a.transpose(&s).unwrap();
        assert_eq!(t.shape(), vec![4, 3, 2]);
        // The element at (k, j, i) is the one at (i, j, k) before.
        let read = t.to_vec::<i32>();
        for i in 0..2 {
            for j in 0..3 {
                for k in 0..4 {
                    assert_eq!(read[(k * 3 + j) * 2 + i], values[(i * 3 + j) * 4 + k]);
                }
            }
        }
        let back = t.transpose(&s).unwrap();
        assert_eq!(back.shape(), a.shape());
        assert_eq!(back.to_vec::<i32>(), values);
    });
}

#[test]
fn squeezing_again_changes_nothing() {
    with(|m| {
        let s = m.cpu();
        let a = m.from_slice(&[1i32, 2, 3], &[1, 3, 1]);
        let q = a.squeeze(&s).unwrap();
        assert_eq!(q.shape(), vec![3]);
        assert_eq!(q.to_vec::<i32>(), a.to_vec::<i32>());
        assert_eq!(q.squeeze(&s).unwrap().shape(), vec![3]);
        for axis in 0..4 {
            let wide = a.expand_dims(axis, &s).unwrap();
            assert_eq!(wide.ndim(), 4);
            assert_eq!(wide.to_vec::<i32>(), a.to_vec::<i32>());
            let back = wide.squeeze(&s).unwrap();
            assert_eq!(back.shape(), q.shape());
            assert_eq!(back.to_vec::<i32>(), q.to_vec::<i32>());
        }
    });
}

#[test]
fn broadcasts_need_matching_axes() {
    with(|m| {
        let s = m.cpu();
        let column = m.from_slice(&[1i32, 2], &[2, 1]);
        let wide = column.broadcast_to(&[3, 2, 2], &s).unwrap();
        assert_eq!(wide.to_vec::<i32>(), [1, 1, 2, 2].repeat(3));
        assert!(column.broadcast_to(&[3, 1], &s).is_err());
        assert!(column.broadcast_to(&[2], &s).is_err());
    });
}

#[test]
fn an_item_is_the_converted_value() {
    with(|m| {
        let s = m.cpu();
        let a = m.from_slice(&[2.75f32], &[1]);
        assert_eq!(a.item::<i32>(), 2);
        assert_eq!(a.astype::<i32>(&s).unwrap().to_vec::<i32>(), vec![a.item::<i32>()]);
        assert_eq!(a.to_vec::<f32>(), vec![a.item::<f32>()]);
        let ints = a.astype::<i32>(&s).unwrap();
        assert_eq!(ints.astype::<i32>(&s).unwrap().to_vec::<i32>(), ints.to_vec::<i32>());
        assert_eq!(ints.shape(), a.shape());
    });
}

#[test]
fn evaluating_again_changes_nothing() {
    with(|m| {
        let s = m.cpu();
        let t = m.from_slice(&[1i32, 2, 3, 4, 5, 6], &[2, 3]).transpose(&s).unwrap();
        t.eval();
        let (strides, elements) = (t.strides(), t.to_vec::<i32>());
        t.eval();
        assert_eq!(t.strides(), strides);
        assert_eq!(t.to_vec::<i32>(), elements);
        assert_eq!(t.shape().len(), t.ndim());
        assert_eq!(t.strides().len(), t.ndim());
        assert_eq!(t.size(), 6);
    });
}

#[test]
fn setting_the_default_again_changes_nothing() {
    with(|m| {
        let cpu = m.cpu();
        cpu.set_as_default();
        cpu.set_as_default();
        assert_eq!(m.default_stream().lane(), cpu.lane());
        assert_eq!(m.gpu().lane(), (Device::Gpu, 1));
    });
}

#[test]
fn rebinding_takes_the_result_or_keeps_the_target() {
    with(|m| {
        let mut a = m.from_slice(&[1.0f32, 2.0], &[2]);
        let b = m.from_slice(&[10.0f32, 20.0], &[2]);
        let old = a.get().as_raw();
        let output = m.run(assign_op(Arith::Add, a.get_mut(), b.get()));
        let new = output.as_ref().ok().unwrap().as_raw();
        assert!(rebind(a.get_mut(), output).is_ok());
        assert_ne!(a.get().as_raw(), old);
        assert_eq!(a.get().as_raw(), new);
        assert_eq!(a.to_vec::<f32>(), vec![11.0, 22.0]);

        m.sabotage("broken");
        let output = m.run(assign_op(Arith::Add, a.get_mut(), b.get()));
        let error = rebind(a.get_mut(), output).unwrap_err();
        assert_eq!(error.describe(), "Array::add failed: MLX error: broken");
        assert_eq!(a.get().as_raw(), new);
        assert_eq!(a.to_vec::<f32>(), vec![11.0, 22.0]);
    });
}

#[test]
fn elementwise_shapes_join() {
    with(|m| {
        let s = m.cpu();
        let column = m.from_slice(&[1i32, 2], &[2, 1]);
        let row = m.from_slice(&[10i32, 20, 30], &[3]);
        let sum = column.add(&row, &s).unwrap();
        assert_eq!(sum.shape(), vec![2, 3]);
        assert_eq!(row.add(&column, &s).unwrap().shape(), vec![2, 3]);
        assert_eq!(sum.to_vec::<i32>(), vec![11, 21, 31, 12, 22, 32]);
        assert_eq!((&row * 2i32).shape(), vec![3]);
        assert_eq!(row.square(&s).unwrap().shape(), vec![3]);
        let pair = m.from_slice(&[1i32, 2], &[2]);
        assert!(row.less(&pair, &s).is_err());
    });
}

#[test]
fn answers_are_bool() {
    with(|m| {
        let s = m.cpu();
        let a = m.from_slice(&[1.0f32, 0.0], &[2, 1]);
        assert_eq!(a.less(&a, &s).unwrap().dtype(), Dtype::Bool);
        assert_eq!(a.logical_or(&a, &s).unwrap().dtype(), Dtype::Bool);
        assert_eq!(a.logical_not(&s).unwrap().dtype(), Dtype::Bool);
        assert_eq!(a.all(true, &s).unwrap().dtype(), Dtype::Bool);
        assert_eq!(a.any_axes(&[0], false, &s).unwrap().dtype(), Dtype::Bool);
        let whole = a.array_equal(&a, false, &s).unwrap();
        assert_eq!(whole.dtype(), Dtype::Bool);
        assert_eq!(whole.ndim(), 0);
    });
}

#[test]
fn reductions_shape_their_results() {
    with(|m| {
        let s = m.cpu();
        let values: Vec<i32> = (0..24).collect();
        let a = m.from_slice(&values, &[2, 3, 4]);
        assert_eq!(a.sum(false, &s).unwrap().shape(), Vec::<i32>::new());
        assert_eq!(a.sum(true, &s).unwrap().shape(), vec![1, 1, 1]);
        assert_eq!(a.sum_axes(&[0, 2], false, &s).unwrap().shape(), vec![3]);
        assert_eq!(a.sum_axes(&[0, 2], true, &s).unwrap().shape(), vec![1, 3, 1]);
        assert_eq!(a.sum_axes(&[], true, &s).unwrap().shape(), vec![2, 3, 4]);
        assert_eq!(a.sum_axes(&[0, 1, 2], false, &s).unwrap().ndim(), 0);
    });
}

#[test]
fn matrix_products_shape_their_results() {
    with(|m| {
        let s = m.cpu();
        let values: Vec<i32> = (0..24).collect();
        let a = m.from_slice(&values, &[2, 3, 4]);
        let b = m.from_slice(&values[..20], &[4, 5]);
        // The batch axes go together: none stretches over two.
        assert_eq!(a.matmul(&b, &s).unwrap().shape(), vec![2, 3, 5]);
        let v = m.from_slice(&values[..4], &[4]);
        assert_eq!(v.matmul(&b, &s).unwrap().shape(), vec![5]);
        assert_eq!(a.matmul(&v, &s).unwrap().shape(), vec![2, 3]);
        assert!(b.matmul(&v, &s).is_err());
    });
}

#[test]
fn float64_fails_on_the_gpu() {
    with(|m| {
        let (cpu, gpu) = (m.cpu(), m.gpu());
        let wide = m.from_slice(&[1.0f64, 2.0], &[2]);
        assert!(wide.sqrt(&gpu).is_err());
        assert!(wide.equal(&wide, &gpu).is_err());
        assert!(wide.astype::<f32>(&gpu).is_err());
        assert!(m.zeros::<f64>(&[2], &gpu).is_err());
        let narrow = m.from_slice(&[1.0f32, 2.0], &[2]);
        assert!(narrow.astype::<f64>(&gpu).is_err());
        assert_eq!(narrow.multiply(&wide, &cpu).unwrap().dtype(), Dtype::Float64);
        assert_eq!(wide.to_vec::<f64>(), vec![1.0, 2.0]);
    });
}

#[test]
fn arrays_outlive_their_operands() {
    with(|m| {
        let s = m.cpu();
        let a = m.from_slice(&[1i32, 2], &[2]);
        let b = a.add(&a, &s).unwrap();
        drop(a);
        assert_eq!(b.to_vec::<i32>(), vec![2, 4]);
        assert_eq!(b.to_vec::<i32>(), vec![2, 4]);
    });
}
