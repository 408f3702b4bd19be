//! Which stream is the default one, and where work runs.
//!
//! MLX keeps one default device and, for each device, a default stream. What the library does with
//! them is stated against that, as far as MLX's documentation says how the calls act on it.

use vstd::prelude::*;

use crate::call::{Call, RawDevice, RawStream, Reply};
use crate::copy::copy_calls;
use crate::operator::{operator_calls, run_place, OperatorPlan};
use crate::read::ReadPlan;
use crate::stream::{set_default_calls, stream_calls, stream_given, StreamPlan};
use crate::task::after;

verus! {

/// The devices that work runs on.
pub enum Device {
    Cpu,
    Gpu,
}

/// A stream, as MLX knows it.
pub struct Lane {
    pub device: Device,
    pub index: int,
}

/// What MLX keeps about devices and streams.
pub struct Schedule {
    /// The devices behind the handles that are in use.
    pub devices: Map<RawDevice, Device>,
    /// The streams behind the handles that are in use.
    pub streams: Map<RawStream, Lane>,
    pub default_device: Device,
    pub default_cpu: Lane,
    pub default_gpu: Lane,
}

impl Schedule {
    /// The default stream of a device.
    pub open spec fn default_on(self, device: Device) -> Lane {
        match device {
            Device::Cpu => self.default_cpu,
            Device::Gpu => self.default_gpu,
        }
    }

    /// The default stream of the default device.
    pub open spec fn current(self) -> Lane {
        self.default_on(self.default_device)
    }

    /// The same defaults.
    pub open spec fn agrees(self, other: Schedule) -> bool {
        &&& self.default_device == other.default_device
        &&& self.default_cpu == other.default_cpu
        &&& self.default_gpu == other.default_gpu
    }
}

/// What a call does to the schedule. A call of which nothing is said here leaves it as it is.
pub open spec fn directs<T>(
    call: Call<T>,
    reply: Reply<T>,
    schedule: Schedule,
    next: Schedule,
) -> bool {
    match call {
        Call::NewGpuStream => next == (Schedule {
            streams: schedule.streams.insert(reply->Stream_0, schedule.default_gpu),
            ..schedule
        }),
        Call::NewCpuStream => next == (Schedule {
            streams: schedule.streams.insert(reply->Stream_0, schedule.default_cpu),
            ..schedule
        }),
        Call::FreeStream { stream } => next == (Schedule {
            streams: schedule.streams.remove(stream),
            ..schedule
        }),
        Call::FreeDevice { device } => next == (Schedule {
            devices: schedule.devices.remove(device),
            ..schedule
        }),
        Call::StreamDevice { stream, .. } => next == (Schedule {
            devices: schedule.devices.insert(reply->Device_0, schedule.streams[stream].device),
            ..schedule
        }),
        Call::DefaultDevice { .. } => next == (Schedule {
            devices: schedule.devices.insert(reply->Device_0, schedule.default_device),
            ..schedule
        }),
        Call::SetDefaultDevice { device } => next == (Schedule {
            default_device: schedule.devices[device],
            ..schedule
        }),
        Call::DefaultStream { device, .. } => next == (Schedule {
            streams: schedule.streams.insert(
                reply->Stream_0,
                schedule.default_on(schedule.devices[device]),
            ),
            ..schedule
        }),
        Call::SetDefaultStream { stream } => {
            let lane = schedule.streams[stream];
            next == (match lane.device {
                Device::Cpu => Schedule { default_cpu: lane, ..schedule },
                Device::Gpu => Schedule { default_gpu: lane, ..schedule },
            })
        },
        _ => next == schedule,
    }
}

/// The calls, one after the other, act on the schedule: `states` begins with the schedule before
/// them and goes on with the schedule after each.
pub open spec fn directed<T>(
    calls: Seq<Call<T>>,
    replies: Seq<Reply<T>>,
    states: Seq<Schedule>,
) -> bool {
    &&& calls.len() <= replies.len()
    &&& states.len() == calls.len() + 1
    &&& forall|i: int|
        0 <= i < calls.len() ==> directs(
            #[trigger] calls[i],
            replies[i],
            states[i],
            states[i + 1],
        )
}

/// The first `n` calls act on the schedule one after the other.
spec fn steps<T>(
    calls: Seq<Call<T>>,
    replies: Seq<Reply<T>>,
    states: Seq<Schedule>,
    n: int,
) -> bool
    decreases n,
{
    n > 0 ==> {
        &&& steps(calls, replies, states, n - 1)
        &&& directs(calls[n - 1], replies[n - 1], states[n - 1], states[n])
    }
}

/// Calls that act one after the other do so step by step.
proof fn lemma_steps<T>(
    calls: Seq<Call<T>>,
    replies: Seq<Reply<T>>,
    states: Seq<Schedule>,
    n: int,
)
    requires
        directed(calls, replies, states),
        n <= calls.len(),
    ensures
        steps(calls, replies, states, n),
    decreases n,
{
    if n > 0 {
        lemma_steps(calls, replies, states, n - 1);
    }
}

/// Each of the streams that can be asked for is the default one of its device, or of the default
/// device, and asking for it changes no default.
pub proof fn streams_are_the_defaults<'a, T: Copy>(
    plan: StreamPlan,
    replies: Seq<Reply<T>>,
    states: Seq<Schedule>,
)
    requires
        directed(stream_calls::<'a, T>(plan, replies), replies, states),
    ensures
        states.last().streams.contains_key(stream_given(plan, replies)),
        states.last().streams[stream_given(plan, replies)] == (match plan {
            StreamPlan::Gpu => states[0].default_gpu,
            StreamPlan::Cpu => states[0].default_cpu,
            StreamPlan::Default => states[0].current(),
        }),
        states.last().agrees(states[0]),
{
    let calls = stream_calls::<'a, T>(plan, replies);
    lemma_steps(calls, replies, states, calls.len() as int);
    reveal_with_fuel(steps, 7);
}

/// The schedule with this stream as the default one, and its device as the default one.
pub open spec fn defaulted(schedule: Schedule, lane: Lane) -> Schedule {
    match lane.device {
        Device::Cpu => Schedule { default_device: lane.device, default_cpu: lane, ..schedule },
        Device::Gpu => Schedule { default_device: lane.device, default_gpu: lane, ..schedule },
    }
}

/// The schedule once a stream was made the default.
proof fn lemma_set_default<'a, T: Copy>(
    stream: RawStream,
    replies: Seq<Reply<T>>,
    states: Seq<Schedule>,
)
    requires
        directed(set_default_calls::<'a, T>(stream, replies), replies, states),
    ensures
        states.last().agrees(defaulted(states[0], states[0].streams[stream])),
        states.last().streams == states[0].streams,
{
    let calls = set_default_calls::<'a, T>(stream, replies);
    lemma_steps(calls, replies, states, 6);
    reveal_with_fuel(steps, 7);
}

/// Once a stream was made the default, the default device is that stream's, the handles of all
/// streams are as before, and asking for the default stream gives that stream, as long as nothing
/// else changes the defaults.
pub proof fn the_default_follows<'a, T: Copy>(
    stream: RawStream,
    set_replies: Seq<Reply<T>>,
    setting: Seq<Schedule>,
    get_replies: Seq<Reply<T>>,
    getting: Seq<Schedule>,
)
    requires
        directed(set_default_calls::<'a, T>(stream, set_replies), set_replies, setting),
        directed(stream_calls::<'a, T>(StreamPlan::Default, get_replies), get_replies, getting),
        getting[0].agrees(setting.last()),
    ensures
        setting.last().default_device == setting[0].streams[stream].device,
        setting.last().current() == setting[0].streams[stream],
        setting.last().streams == setting[0].streams,
        getting.last().streams[stream_given(StreamPlan::Default, get_replies)]
            == setting[0].streams[stream],
{
    lemma_set_default::<T>(stream, set_replies, setting);
    streams_are_the_defaults::<T>(StreamPlan::Default, get_replies, getting);
}

/// Making the same stream the default once more changes no default.
pub proof fn setting_the_default_again_changes_nothing<'a, T: Copy>(
    stream: RawStream,
    replies: Seq<Reply<T>>,
    setting: Seq<Schedule>,
    again_replies: Seq<Reply<T>>,
    again: Seq<Schedule>,
)
    requires
        directed(set_default_calls::<'a, T>(stream, replies), replies, setting),
        directed(set_default_calls::<'a, T>(stream, again_replies), again_replies, again),
        again[0].agrees(setting.last()),
        again[0].streams[stream] == setting[0].streams[stream],
    ensures
        again.last().agrees(again[0]),
{
    lemma_set_default::<T>(stream, replies, setting);
    lemma_set_default::<T>(stream, again_replies, again);
}

/// An operator runs its operation on the stream that is the current default when it starts.
pub proof fn operators_run_on_the_default_stream<'a, T: Copy>(
    plan: OperatorPlan<T>,
    replies: Seq<Reply<T>>,
    states: Seq<Schedule>,
)
    requires
        directed(operator_calls::<'a, T>(plan, replies), replies, states),
    ensures
        operator_calls::<'a, T>(plan, replies)[run_place(plan) + 2] matches Call::Invoke {
            stream,
            ..
        } && states[run_place(plan) + 2].streams[stream] == states[0].current(),
{
    let calls = operator_calls::<'a, T>(plan, replies);
    lemma_steps(calls, replies, states, run_place(plan) + 2);
    reveal_with_fuel(steps, 11);
    if plan.scalar::<'a>() is Some {
        let later = after(replies, 2);
        assert(later[1] == replies[3] && later[2] == replies[4] && later[3] == replies[5]
            && later[4] == replies[6]);
    }
}

/// Asking for the default stream again gives the same stream, as long as nothing else changes the
/// defaults.
pub proof fn asking_again_gives_the_same_stream<'a, T: Copy>(
    first_replies: Seq<Reply<T>>,
    first: Seq<Schedule>,
    second_replies: Seq<Reply<T>>,
    second: Seq<Schedule>,
)
    requires
        directed(stream_calls::<'a, T>(StreamPlan::Default, first_replies), first_replies, first),
        directed(
            stream_calls::<'a, T>(StreamPlan::Default, second_replies),
            second_replies,
            second,
        ),
        second[0].agrees(first.last()),
    ensures
        second.last().streams[stream_given(StreamPlan::Default, second_replies)]
            == first.last().streams[stream_given(StreamPlan::Default, first_replies)],
{
    streams_are_the_defaults::<T>(StreamPlan::Default, first_replies, first);
    streams_are_the_defaults::<T>(StreamPlan::Default, second_replies, second);
}

/// Once a stream was made the default, operators run on that stream, as long as nothing else
/// changes the defaults.
pub proof fn operators_follow_the_default<'a, T: Copy>(
    stream: RawStream,
    set_replies: Seq<Reply<T>>,
    setting: Seq<Schedule>,
    plan: OperatorPlan<T>,
    replies: Seq<Reply<T>>,
    states: Seq<Schedule>,
)
    requires
        directed(set_default_calls::<'a, T>(stream, set_replies), set_replies, setting),
        directed(operator_calls::<'a, T>(plan, replies), replies, states),
        states[0].agrees(setting.last()),
    ensures
        operator_calls::<'a, T>(plan, replies)[run_place(plan) + 2] matches Call::Invoke {
            stream: used,
            ..
        } && states[run_place(plan) + 2].streams[used] == setting[0].streams[stream],
{
    lemma_set_default::<T>(stream, set_replies, setting);
    operators_run_on_the_default_stream::<T>(plan, replies, states);
}

/// The row-contiguous copy that a read may need is made on the CPU.
pub proof fn copies_are_made_on_the_cpu<'a, T: Copy>(
    plan: ReadPlan,
    replies: Seq<Reply<T>>,
    states: Seq<Schedule>,
)
    requires
        directed(copy_calls::<'a, T>(plan, replies), replies, states),
    ensures
        copy_calls::<'a, T>(plan, replies)[4] matches Call::Invoke { stream, .. }
            && states[4].streams[stream] == states[0].default_cpu,
{
    let calls = copy_calls::<'a, T>(plan, replies);
    lemma_steps(calls, replies, states, 4);
    reveal_with_fuel(steps, 5);
}

} // verus!
