//! Streams.
//!
//! MLX schedules every operation on a stream, which is bound to a device. Most operations take a
//! stream; those that do not run on the current default stream.

use std::marker::PhantomData;
use std::rc::Rc;

use vstd::prelude::*;

use crate::call::{Call, RawDevice, RawStream, Reply};
use crate::task::{Step, Task};

verus! {

/// An execution stream bound to a device: the handle that MLX knows it by, which the value owns.
///
/// Not `Send` and not `Sync`, as [`Array`](crate::array::Array) is not: its only purpose is to
/// feed operations on arrays.
pub struct Stream {
    raw: RawStream,
    thread_bound: PhantomData<Rc<()>>,
}

impl Stream {
    /// The handle.
    pub closed spec fn raw(&self) -> RawStream {
        self.raw
    }

    /// Takes ownership of a handle.
    pub(crate) fn from_raw(raw: RawStream) -> (stream: Stream)
        ensures
            stream.raw() == raw,
    {
        Stream { raw, thread_bound: PhantomData }
    }

    /// The handle. The stream keeps ownership of it.
    pub fn as_raw(&self) -> (raw: RawStream)
        ensures
            raw == self.raw(),
    {
        self.raw
    }

    /// The default stream on the GPU device.
    pub fn gpu() -> (task: StreamTask<()>)
        ensures
            task.plan() == StreamPlan::Gpu,
            task.replies() == Seq::<Reply<()>>::empty(),
    {
        StreamTask::new(StreamPlan::Gpu)
    }

    /// The default stream on the CPU device.
    pub fn cpu() -> (task: StreamTask<()>)
        ensures
            task.plan() == StreamPlan::Cpu,
            task.replies() == Seq::<Reply<()>>::empty(),
    {
        StreamTask::new(StreamPlan::Cpu)
    }

    /// MLX's *current* default stream, which follows [`set_as_default`](Stream::set_as_default).
    ///
    /// The initial default is chosen by MLX: the GPU when a GPU backend is available, otherwise the
    /// CPU. This only reads that default.
    pub fn default() -> (task: StreamTask<()>)
        ensures
            task.plan() == StreamPlan::Default,
            task.replies() == Seq::<Reply<()>>::empty(),
    {
        StreamTask::new(StreamPlan::Default)
    }

    /// Makes this the process-wide default stream, and its device the default device.
    pub fn set_as_default<'a>(&'a self) -> (task: SetDefaultTask<'a, ()>)
        ensures
            task.plan() == self.raw(),
            task.replies() == Seq::<Reply<()>>::empty(),
    {
        SetDefaultTask::new(self.raw)
    }

    /// Gives the stream up: the call that frees its handle.
    pub fn release<'a>(self) -> (call: Call<'a, ()>)
        ensures
            call matches Call::FreeStream { stream } && stream == self.raw(),
    {
        Call::FreeStream { stream: self.raw }
    }
}

/// Which stream to get.
#[derive(Clone, Copy, PartialEq, Eq, Structural, Debug)]
pub enum StreamPlan {
    Gpu,
    Cpu,
    Default,
}

/// The calls that get a stream. The current default is that of the current default device, whose
/// handle is freed once the stream is there.
pub open spec fn stream_calls<'a, T>(plan: StreamPlan, replies: Seq<Reply<T>>) -> Seq<Call<'a, T>> {
    match plan {
        StreamPlan::Gpu => seq![Call::Install, Call::NewGpuStream],
        StreamPlan::Cpu => seq![Call::Install, Call::NewCpuStream],
        StreamPlan::Default => seq![
            Call::Install,
            Call::NewDevice,
            Call::DefaultDevice { device: replies[1]->Device_0 },
            Call::NewStream,
            Call::DefaultStream { stream: replies[3]->Stream_0, device: replies[2]->Device_0 },
            Call::FreeDevice { device: replies[2]->Device_0 },
        ],
    }
}

/// The handle of the stream that the replies brought.
pub open spec fn stream_given<T>(plan: StreamPlan, replies: Seq<Reply<T>>) -> RawStream {
    match plan {
        StreamPlan::Default => replies[4]->Stream_0,
        _ => replies[1]->Stream_0,
    }
}

enum Stage {
    Install,
    New,
    NewDevice,
    DefaultDevice { device: RawDevice },
    NewStream { device: RawDevice },
    DefaultStream { device: RawDevice, stream: RawStream },
    FreeDevice { device: RawDevice, stream: RawStream },
}

/// Gets a stream.
pub struct StreamTask<T> {
    plan: StreamPlan,
    stage: Stage,
    replies: Ghost<Seq<Reply<T>>>,
    bound: PhantomData<Rc<()>>,
}

impl<T> StreamTask<T> {
    #[verifier::type_invariant]
    spec fn well_formed(self) -> bool {
        let replies = self.replies@;
        match self.stage {
            Stage::Install => replies.len() == 0,
            Stage::New => self.plan != StreamPlan::Default && replies.len() == 1,
            Stage::NewDevice => self.plan == StreamPlan::Default && replies.len() == 1,
            Stage::DefaultDevice { device } => {
                &&& self.plan == StreamPlan::Default
                &&& replies.len() == 2
                &&& replies[1]->Device_0 == device
            },
            Stage::NewStream { device } => {
                &&& self.plan == StreamPlan::Default
                &&& replies.len() == 3
                &&& replies[2]->Device_0 == device
            },
            Stage::DefaultStream { device, stream } => {
                &&& self.plan == StreamPlan::Default
                &&& replies.len() == 4
                &&& replies[2]->Device_0 == device
                &&& replies[3]->Stream_0 == stream
            },
            Stage::FreeDevice { device, stream } => {
                &&& self.plan == StreamPlan::Default
                &&& replies.len() == 5
                &&& replies[2]->Device_0 == device
                &&& replies[4]->Stream_0 == stream
            },
        }
    }
}

impl<T: Copy> StreamTask<T> {
    /// A task that gets the stream of this plan.
    pub(crate) fn new(plan: StreamPlan) -> (task: Self)
        ensures
            task.plan() == plan,
            task.replies() == Seq::<Reply<T>>::empty(),
    {
        StreamTask { plan, stage: Stage::Install, replies: Ghost(Seq::empty()), bound: PhantomData }
    }
}

impl<'a, T: Copy> Task<'a, T> for StreamTask<T> {
    type Plan = StreamPlan;

    type Output = Stream;

    closed spec fn plan(&self) -> StreamPlan {
        self.plan
    }

    closed spec fn replies(&self) -> Seq<Reply<T>> {
        self.replies@
    }

    open spec fn calls(plan: StreamPlan, replies: Seq<Reply<T>>) -> Seq<Call<'a, T>> {
        stream_calls(plan, replies)
    }

    open spec fn gives(plan: StreamPlan, replies: Seq<Reply<T>>, output: Stream) -> bool {
        output.raw() == stream_given(plan, replies)
    }

    proof fn calls_are_causal(plan: StreamPlan, a: Seq<Reply<T>>, b: Seq<Reply<T>>, n: int) {
        assert(n > 1 ==> a[1] == b[1]);
        assert(n > 2 ==> a[2] == b[2]);
        assert(n > 3 ==> a[3] == b[3]);
    }

    fn call(&self) -> (call: Call<'a, T>) {
        proof {
            use_type_invariant(self);
        }
        match &self.stage {
            Stage::Install => Call::Install,
            Stage::New => match self.plan {
                StreamPlan::Gpu => Call::NewGpuStream,
                _ => Call::NewCpuStream,
            },
            Stage::NewDevice => Call::NewDevice,
            Stage::DefaultDevice { device } => Call::DefaultDevice { device: *device },
            Stage::NewStream { .. } => Call::NewStream,
            Stage::DefaultStream { device, stream } => {
                Call::DefaultStream { stream: *stream, device: *device }
            },
            Stage::FreeDevice { device, .. } => Call::FreeDevice { device: *device },
        }
    }

    fn resume(self, reply: Reply<T>) -> (step: Step<Self, Stream>) {
        proof {
            use_type_invariant(&self);
        }
        let plan = self.plan;
        let replies: Ghost<Seq<Reply<T>>> = Ghost(self.replies@.push(reply));
        match (self.stage, reply) {
            (Stage::Install, _) => match plan {
                StreamPlan::Default => {
                    Step::More(
                        StreamTask { plan, stage: Stage::NewDevice, replies, bound: PhantomData },
                    )
                },
                _ => Step::More(
                    StreamTask { plan, stage: Stage::New, replies, bound: PhantomData },
                ),
            },
            (Stage::New, Reply::Stream(stream)) => Step::Done(Stream::from_raw(stream)),
            (Stage::NewDevice, Reply::Device(device)) => {
                Step::More(
                    StreamTask {
                        plan,
                        stage: Stage::DefaultDevice { device },
                        replies,
                        bound: PhantomData,
                    },
                )
            },
            (Stage::DefaultDevice { .. }, Reply::Device(device)) => {
                Step::More(
                    StreamTask {
                        plan,
                        stage: Stage::NewStream { device },
                        replies,
                        bound: PhantomData,
                    },
                )
            },
            (Stage::NewStream { device }, Reply::Stream(stream)) => {
                let stage = Stage::DefaultStream { device, stream };
                Step::More(StreamTask { plan, stage, replies, bound: PhantomData })
            },
            (Stage::DefaultStream { device, .. }, Reply::Stream(stream)) => {
                let stage = Stage::FreeDevice { device, stream };
                Step::More(StreamTask { plan, stage, replies, bound: PhantomData })
            },
            (Stage::FreeDevice { stream, .. }, _) => Step::Done(Stream::from_raw(stream)),
            _ => vstd::pervasive::unreached(),
        }
    }
}

/// The calls that make a stream the default: first its device becomes the default device, and the
/// handle that was needed for that is freed; then the stream becomes the default one.
pub open spec fn set_default_calls<'a, T>(stream: RawStream, replies: Seq<Reply<T>>) -> Seq<
    Call<'a, T>,
> {
    seq![
        Call::Install,
        Call::NewDevice,
        Call::StreamDevice { device: replies[1]->Device_0, stream },
        Call::SetDefaultDevice { device: replies[2]->Device_0 },
        Call::FreeDevice { device: replies[2]->Device_0 },
        Call::SetDefaultStream { stream },
    ]
}

enum SetStage {
    Install,
    NewDevice,
    StreamDevice { device: RawDevice },
    SetDevice { device: RawDevice },
    FreeDevice { device: RawDevice },
    SetStream,
}

/// Makes a stream the default.
pub struct SetDefaultTask<'a, T> {
    stream: RawStream,
    stage: SetStage,
    replies: Ghost<Seq<Reply<T>>>,
    bound: PhantomData<&'a Stream>,
}

impl<'a, T> SetDefaultTask<'a, T> {
    #[verifier::type_invariant]
    spec fn well_formed(self) -> bool {
        let replies = self.replies@;
        match self.stage {
            SetStage::Install => replies.len() == 0,
            SetStage::NewDevice => replies.len() == 1,
            SetStage::StreamDevice { device } => {
                replies.len() == 2 && replies[1]->Device_0 == device
            },
            SetStage::SetDevice { device } => replies.len() == 3 && replies[2]->Device_0 == device,
            SetStage::FreeDevice { device } => replies.len() == 4 && replies[2]->Device_0 == device,
            SetStage::SetStream => replies.len() == 5,
        }
    }
}

impl<'a, T: Copy> SetDefaultTask<'a, T> {
    /// A task that makes `stream` the default.
    pub(crate) fn new(stream: RawStream) -> (task: Self)
        ensures
            task.plan() == stream,
            task.replies() == Seq::<Reply<T>>::empty(),
    {
        SetDefaultTask {
            stream,
            stage: SetStage::Install,
            replies: Ghost(Seq::empty()),
            bound: PhantomData,
        }
    }
}

impl<'a, T: Copy> Task<'a, T> for SetDefaultTask<'a, T> {
    type Plan = RawStream;

    type Output = ();

    closed spec fn plan(&self) -> RawStream {
        self.stream
    }

    closed spec fn replies(&self) -> Seq<Reply<T>> {
        self.replies@
    }

    open spec fn calls(plan: RawStream, replies: Seq<Reply<T>>) -> Seq<Call<'a, T>> {
        set_default_calls(plan, replies)
    }

    open spec fn gives(plan: RawStream, replies: Seq<Reply<T>>, output: ()) -> bool {
        true
    }

    proof fn calls_are_causal(plan: RawStream, a: Seq<Reply<T>>, b: Seq<Reply<T>>, n: int) {
        assert(n > 1 ==> a[1] == b[1]);
        assert(n > 2 ==> a[2] == b[2]);
    }

    fn call(&self) -> (call: Call<'a, T>) {
        proof {
            use_type_invariant(self);
        }
        match &self.stage {
            SetStage::Install => Call::Install,
            SetStage::NewDevice => Call::NewDevice,
            SetStage::StreamDevice { device } => {
                Call::StreamDevice { device: *device, stream: self.stream }
            },
            SetStage::SetDevice { device } => Call::SetDefaultDevice { device: *device },
            SetStage::FreeDevice { device } => Call::FreeDevice { device: *device },
            SetStage::SetStream => Call::SetDefaultStream { stream: self.stream },
        }
    }

    fn resume(self, reply: Reply<T>) -> (step: Step<Self, ()>) {
        proof {
            use_type_invariant(&self);
        }
        let stream = self.stream;
        let replies: Ghost<Seq<Reply<T>>> = Ghost(self.replies@.push(reply));
        match (self.stage, reply) {
            (SetStage::Install, _) => {
                Step::More(
                    SetDefaultTask {
                        stream,
                        stage: SetStage::NewDevice,
                        replies,
                        bound: PhantomData,
                    },
                )
            },
            (SetStage::NewDevice, Reply::Device(device)) => {
                let stage = SetStage::StreamDevice { device };
                Step::More(SetDefaultTask { stream, stage, replies, bound: PhantomData })
            },
            (SetStage::StreamDevice { .. }, Reply::Device(device)) => {
                let stage = SetStage::SetDevice { device };
                Step::More(SetDefaultTask { stream, stage, replies, bound: PhantomData })
            },
            (SetStage::SetDevice { device }, _) => {
                let stage = SetStage::FreeDevice { device };
                Step::More(SetDefaultTask { stream, stage, replies, bound: PhantomData })
            },
            (SetStage::FreeDevice { .. }, _) => {
                Step::More(
                    SetDefaultTask {
                        stream,
                        stage: SetStage::SetStream,
                        replies,
                        bound: PhantomData,
                    },
                )
            },
            (SetStage::SetStream, _) => Step::Done(()),
            _ => vstd::pervasive::unreached(),
        }
    }
}

} // verus!
