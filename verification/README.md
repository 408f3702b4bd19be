# mlxcore

Arrays that live in Apple's [MLX](https://github.com/ml-explore/mlx) framework, with a verified core.

MLX is reached through its C interface. The library under `src/` never calls that interface itself:
everything it does is a *task*, which names the next call it needs and goes on when it is handed the
reply. What a task asks for, in which order, and what it makes of every possible reply is proved with
[Verus](https://github.com/verus-lang/verus).

- `src/task.rs`, `src/call.rs`: tasks, calls and replies.
- `src/array.rs`, `src/stream.rs`, `src/operator.rs`: the methods and operators of arrays and streams.
- `src/op.rs`, `src/construct.rs`, `src/full.rs`, `src/query.rs`, `src/item.rs`, `src/read.rs`,
  `src/copy.rs`, `src/to_vec.rs`, `src/describe.rs`, `src/default_stream.rs`: the tasks behind them.
- `src/shape.rs`, `src/layout.rs`, `src/dtype.rs`, `src/error.rs`, `src/text.rs`: shapes, strides,
  element types and messages.
- `src/ownership.rs`: each task gives back exactly once every handle that it gets and does not hand
  over, and uses none after that. What it borrows is borrowed in Rust's sense too; the left operand
  of an assignment is borrowed mutably, and `rebind` puts the result in its place.
- `src/memory.rs`, `src/values.rs`, `src/extent.rs`, `src/typed.rs`: what is read is what was
  written, in row-major order, also after arrays were converted or rearranged; the shapes and element
  types of results; what fails.
- `src/schedule.rs`: which stream work runs on.
- `src/handler.rs`: the error handler is in place before anything can fail. (Copying a storage buffer
  relies on the evaluation before it.)
- `app/`: the calls themselves, and the types that free their handles when they are dropped. Apple
  Silicon only.
- `tests/`: the library at work, with a small stand-in for MLX behind it.

Unsuffixed float literals are `f64`, and Apple GPUs have no float64 support: write `1.0f32`, or use
the CPU stream.
