//! Arrays that live in Apple's [MLX](https://github.com/ml-explore/mlx) framework.
//!
//! MLX is reached through its C interface, which this library does not call itself. Whatever it
//! does is a [task](task::Task): a task says which [call](call::Call) it needs next, and goes on
//! when it is handed the [reply](call::Reply). Who performs the calls needs to know nothing else,
//! and what a task does with whatever the replies bring is proved here: which calls it makes and in
//! which order ([`op`], [`to_vec`], [`operator`] and their neighbours), that each method asks for
//! what its name says ([`methods`]) and that this reaches MLX as it is ([`carried`]), that each
//! task gives back exactly once every handle that it does not hand over ([`ownership`]), that what
//! is read is what was written ([`memory`], [`values`]), that an array reports what MLX keeps of it
//! ([`reported`], [`printing`]), that results are those of the operation that was asked for
//! ([`arithmetic`]), on which stream work runs ([`schedule`]), and what errors say ([`messages`]).
//!
//! # Element types
//!
//! A task that carries elements is generic in their type `T`, and is told by a [`Dtype`] which
//! element type of MLX `T` stands for. A task that carries none has `T = ()`.
//!
//! Apple GPUs have no float64 support. Since the default stream is the GPU, an array of `f64`
//! values fails on every operation there; it works on an explicit [`Stream::cpu`] stream. MLX
//! promotes to the wider type, so a `f64` operand widens the result.
//!
//! # Threading: use one thread
//!
//! [`Array`], [`Stream`] and the tasks on them are deliberately not `Send` and not `Sync`, so the
//! compiler keeps all work on the thread that started it:
//!
//! - MLX is lazy, so an array owns the graph that produces it, and evaluating one array mutates the
//!   nodes that it was built from, with no lock. Those nodes belong to the operands, which Rust
//!   sees as separate owned values.
//! - MLX's Metal backend keeps one command encoder per stream, and two threads that submit work at
//!   once trip an assertion inside Metal.
//!
//! A task borrows its operands as long as it lives, so none can be released under it. To use
//! results elsewhere, copy them out first: [`Array::to_vec`] and [`Array::item`] give plain
//! values.

use vstd::prelude::*;

pub mod arithmetic;
pub mod array;
pub mod call;
pub mod carried;
pub mod construct;
pub mod copy;
pub mod default_stream;
pub mod describe;
pub mod dtype;
pub mod error;
pub mod extent;
pub mod full;
pub mod handler;
pub mod item;
pub mod layout;
pub mod memory;
pub mod messages;
pub mod methods;
pub mod op;
pub mod operator;
pub mod ownership;
pub mod printing;
pub mod query;
pub mod read;
pub mod reported;
pub mod schedule;
pub mod shape;
pub mod stream;
pub mod task;
pub mod text;
pub mod to_vec;
pub mod typed;
pub mod values;

use crate::task::Task;

pub use array::Array;
pub use dtype::Dtype;
pub use error::Error;
pub use stream::Stream;

verus! {

/// The version of the MLX library.
pub fn version<'a>() -> (task: describe::DescribeTask<'a, ()>)
    ensures
        task.plan() == describe::DescribePlan::Version,
        task.replies() == Seq::<call::Reply<()>>::empty(),
{
    describe::DescribeTask::new(describe::DescribePlan::Version)
}

} // verus!
