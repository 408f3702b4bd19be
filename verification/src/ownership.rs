//! Who owns the handles that the calls make.
//!
//! A handle that a call makes has to be given back to MLX exactly once, and may be used until
//! then only. Here the handles are counted call by call, and each task is shown to keep to that
//! whatever MLX replies.

use vstd::multiset::*;
use vstd::prelude::*;

use crate::array::Array;
use crate::call::{Call, Op, RawArray, RawDevice, RawStream, RawString, Reply};
use crate::construct::{build_calls, BuildPlan};
use crate::copy::{copy_calls, copy_plan};
use crate::default_stream::{default_calls, on_default, replace_calls, DefaultPlan, DefaultTask};
use crate::describe::{describe_calls, DescribePlan};
use crate::error::Error;
use crate::full::{full_calls, spread, FullPlan, FullTask};
use crate::item::item_calls;
use crate::op::{failed, op_calls, op_gives, OpPlan};
use crate::operator::{operator_calls, operator_gives, OperatorError, OperatorPlan};
use crate::query::{
    layout_calls, CountPlan, CountTask, DtypeTask, EvalTask, ShapeTask, StridesTask,
};
use crate::read::{read_calls, ReadPlan};
use crate::stream::{set_default_calls, stream_calls, stream_given, StreamPlan};
use crate::task::{after, Task};
use crate::to_vec::{contiguous, eval_calls, to_vec_calls};

verus! {

/// A handle of any sort.
pub enum Object {
    Array(RawArray),
    Stream(RawStream),
    Device(RawDevice),
    Text(RawString),
}

/// The handle that a call hands over to the library.
pub open spec fn makes<T>(call: Call<T>, reply: Reply<T>) -> Option<Object> {
    match call {
        Call::NewArray | Call::NewData { .. } | Call::NewScalar { .. } => Some(
            Object::Array(reply->Array_0),
        ),
        Call::Invoke { .. } => Some(Object::Array(reply->out)),
        Call::NewGpuStream
        | Call::NewCpuStream
        | Call::NewStream
        | Call::DefaultStream { .. } => Some(Object::Stream(reply->Stream_0)),
        Call::NewDevice | Call::StreamDevice { .. } | Call::DefaultDevice { .. } => Some(
            Object::Device(reply->Device_0),
        ),
        Call::NewString | Call::ArrayText { .. } | Call::Version { .. } => Some(
            Object::Text(reply->String_0),
        ),
        _ => None,
    }
}

/// The handle that a call takes from the library: it is freed, or the call writes another one in
/// its place.
pub open spec fn takes<T>(call: Call<T>) -> Option<Object> {
    match call {
        Call::FreeArray { array } => Some(Object::Array(array)),
        Call::Invoke { out, .. } => Some(Object::Array(out)),
        Call::FreeStream { stream } | Call::DefaultStream { stream, .. } => Some(
            Object::Stream(stream),
        ),
        Call::FreeDevice { device }
        | Call::StreamDevice { device, .. }
        | Call::DefaultDevice { device } => Some(Object::Device(device)),
        Call::FreeString { string }
        | Call::ArrayText { string, .. }
        | Call::Version { string } => Some(Object::Text(string)),
        _ => None,
    }
}

/// An operation reads the array behind this handle.
pub open spec fn reads(op: Op, array: RawArray) -> bool {
    match op {
        Op::Unary { a, .. }
        | Op::Reduce { a, .. }
        | Op::ReduceAxes { a, .. }
        | Op::Shape { a, .. }
        | Op::Astype { a, .. }
        | Op::Contiguous { a, .. }
        | Op::ExpandDims { a, .. } => array == a,
        Op::Binary { a, b, .. } | Op::ArrayEqual { a, b, .. } => array == a || array == b,
        Op::Full { vals, .. } => array == vals,
        Op::Fill { .. } | Op::Arange { .. } => false,
    }
}

/// A call uses the handle, and leaves it as it is.
pub open spec fn uses<T>(call: Call<T>, object: Object) -> bool {
    match call {
        Call::Invoke { op, stream, .. } => match object {
            Object::Array(array) => reads(op, array),
            Object::Stream(s) => s == stream,
            _ => false,
        },
        Call::Eval { array }
        | Call::Size { array }
        | Call::Ndim { array }
        | Call::Shape { array, .. }
        | Call::Strides { array, .. }
        | Call::Dtype { array }
        | Call::Item { array }
        | Call::Copy { array, .. }
        | Call::ArrayText { array, .. } => object == Object::Array(array),
        Call::StreamDevice { stream, .. } | Call::SetDefaultStream { stream } => object
            == Object::Stream(stream),
        Call::SetDefaultDevice { device } | Call::DefaultStream { device, .. } => object
            == Object::Device(device),
        Call::StringData { string } => object == Object::Text(string),
        _ => false,
    }
}

/// How many of this handle a call adds to those that the library owns.
pub open spec fn change<T>(call: Call<T>, reply: Reply<T>, object: Object) -> int {
    let made: int = if makes(call, reply) == Some(object) {
        1
    } else {
        0
    };
    let taken: int = if takes(call) == Some(object) {
        1
    } else {
        0
    };
    made - taken
}

/// How many of this handle the first `n` calls add to those that the library owns.
pub open spec fn tally<T>(
    calls: Seq<Call<T>>,
    replies: Seq<Reply<T>>,
    n: int,
    object: Object,
) -> int
    decreases n,
{
    if n <= 0 {
        0
    } else {
        tally(calls, replies, n - 1, object) + change(calls[n - 1], replies[n - 1], object)
    }
}

/// The calls begin with the handles `given` and end with the handles `kept`. On the way each call
/// takes only a handle that is owned at the time, and uses only handles that are owned or borrowed.
/// So nothing leaks, nothing is freed twice, nothing is used once it is freed, and what is borrowed
/// stays.
pub open spec fn conserves<T>(
    calls: Seq<Call<T>>,
    replies: Seq<Reply<T>>,
    borrowed: Set<Object>,
    given: Multiset<Object>,
    kept: Multiset<Object>,
) -> bool {
    &&& forall|n: int|
        0 <= n < calls.len() ==> (#[trigger] takes(calls[n]) matches Some(o) ==> given.count(o)
            + tally(calls, replies, n, o) > 0)
    &&& forall|n: int, o: Object|
        0 <= n < calls.len() && #[trigger] uses(calls[n], o) ==> borrowed.contains(o)
            || given.count(o) + tally(calls, replies, n, o) > 0
    &&& forall|o: Object|
        #[trigger] kept.count(o) == given.count(o) + tally(
            calls,
            replies,
            calls.len() as int,
            o,
        )
}

/// The count of a handle never falls below zero.
proof fn lemma_nonnegative<T>(
    calls: Seq<Call<T>>,
    replies: Seq<Reply<T>>,
    borrowed: Set<Object>,
    given: Multiset<Object>,
    kept: Multiset<Object>,
    n: int,
    object: Object,
)
    requires
        conserves(calls, replies, borrowed, given, kept),
        0 <= n <= calls.len(),
    ensures
        given.count(object) + tally(calls, replies, n, object) >= 0,
    decreases n,
{
    if n > 0 {
        lemma_nonnegative(calls, replies, borrowed, given, kept, n - 1, object);
        assert(takes(calls[n - 1]) == Some(object) ==> given.count(object) + tally(
            calls,
            replies,
            n - 1,
            object,
        ) > 0);
    }
}

/// The count over two lists of calls, one after the other.
proof fn lemma_tally_concat<T>(
    a: Seq<Call<T>>,
    b: Seq<Call<T>>,
    replies: Seq<Reply<T>>,
    n: int,
    object: Object,
)
    requires
        0 <= n <= a.len() + b.len() <= replies.len(),
    ensures
        tally(a + b, replies, n, object) == (if n <= a.len() {
            tally(a, replies, n, object)
        } else {
            tally(a, replies, a.len() as int, object) + tally(
                b,
                after(replies, a.len() as int),
                n - a.len(),
                object,
            )
        }),
    decreases n,
{
    if n > 0 {
        lemma_tally_concat(a, b, replies, n - 1, object);
        if n > a.len() {
            assert((a + b)[n - 1] == b[n - 1 - a.len()]);
            let later = after(replies, a.len() as int);
            assert(later[n - 1 - a.len()] == replies[n - 1]);
            assert(tally(b, later, 0, object) == 0);
        } else {
            assert((a + b)[n - 1] == a[n - 1]);
        }
    }
}

/// Two lists of calls, one after the other: the second begins with what the first keeps.
proof fn lemma_sequence<T>(
    a: Seq<Call<T>>,
    b: Seq<Call<T>>,
    replies: Seq<Reply<T>>,
    borrowed: Set<Object>,
    given: Multiset<Object>,
    middle: Multiset<Object>,
    kept: Multiset<Object>,
)
    requires
        a.len() + b.len() <= replies.len(),
        conserves(a, replies, borrowed, given, middle),
        conserves(b, after(replies, a.len() as int), borrowed, middle, kept),
    ensures
        conserves(a + b, replies, borrowed, given, kept),
{
    let calls = a + b;
    let later = after(replies, a.len() as int);
    assert forall|n: int, o: Object| 0 <= n <= calls.len() implies given.count(o)
        + #[trigger] tally(calls, replies, n, o) == (if n <= a.len() {
        given.count(o) + tally(a, replies, n, o)
    } else {
        middle.count(o) + tally(b, later, n - a.len(), o)
    }) by {
        lemma_tally_concat(a, b, replies, n, o);
        assert(middle.count(o) == given.count(o) + tally(a, replies, a.len() as int, o));
    }
    assert forall|n: int| 0 <= n < calls.len() implies (#[trigger] takes(calls[n]) matches Some(o)
        ==> given.count(o) + tally(calls, replies, n, o) > 0) by {
        if n < a.len() {
            assert(calls[n] == a[n]);
            assert(takes(a[n]) == takes(calls[n]));
        } else {
            assert(calls[n] == b[n - a.len()]);
            assert(takes(b[n - a.len()]) == takes(calls[n]));
            if let Some(o) = takes(calls[n]) {
                assert(middle.count(o) == given.count(o) + tally(a, replies, a.len() as int, o));
            }
        }
    }
    assert forall|n: int, o: Object|
        0 <= n < calls.len() && #[trigger] uses(calls[n], o) implies borrowed.contains(o)
        || given.count(o) + tally(calls, replies, n, o) > 0 by {
        if n < a.len() {
            assert(calls[n] == a[n]);
            assert(uses(a[n], o));
        } else {
            assert(calls[n] == b[n - a.len()]);
            assert(uses(b[n - a.len()], o));
            assert(middle.count(o) == given.count(o) + tally(a, replies, a.len() as int, o));
        }
    }
    assert forall|o: Object|
        #[trigger] kept.count(o) == given.count(o) + tally(
            calls,
            replies,
            calls.len() as int,
            o,
        ) by {
        assert(middle.count(o) == given.count(o) + tally(a, replies, a.len() as int, o));
        lemma_tally_concat(a, b, replies, calls.len() as int, o);
    }
}

/// The calls may be made while other handles are owned, which they leave alone. What they borrow
/// may be among those.
proof fn lemma_frame<T>(
    calls: Seq<Call<T>>,
    replies: Seq<Reply<T>>,
    inner: Set<Object>,
    outer: Set<Object>,
    given: Multiset<Object>,
    kept: Multiset<Object>,
    frame: Multiset<Object>,
)
    requires
        conserves(calls, replies, inner, given, kept),
        forall|o: Object| #[trigger] inner.contains(o) ==> outer.contains(o) || frame.count(o) > 0,
    ensures
        conserves(calls, replies, outer, frame.add(given), frame.add(kept)),
        given =~= Multiset::empty() ==> conserves(calls, replies, outer, frame, frame.add(kept)),
        kept =~= Multiset::empty() ==> conserves(calls, replies, outer, frame.add(given), frame),
{
    assert forall|n: int, o: Object|
        0 <= n < calls.len() && #[trigger] uses(calls[n], o) implies outer.contains(o)
        || frame.add(given).count(o) + tally(calls, replies, n, o) > 0 by {
        lemma_nonnegative(calls, replies, inner, given, kept, n, o);
    }
    assert(given =~= Multiset::empty() ==> frame.add(given) =~= frame);
    assert(kept =~= Multiset::empty() ==> frame.add(kept) =~= frame);
}

/// The replies from the `n`-th on, among those from the `m`-th on.
proof fn lemma_after_after<T>(replies: Seq<Reply<T>>, m: int, n: int)
    requires
        0 <= m,
        0 <= n,
        m + n <= replies.len(),
    ensures
        after(after(replies, m), n) == after(replies, m + n),
{
    assert(after(after(replies, m), n) =~= after(replies, m + n));
}

/// The handles that an outcome owns: that of the array, if there is one.
pub open spec fn owned_by<E>(output: Result<Array, E>) -> Multiset<Object> {
    match output {
        Ok(array) => Multiset::singleton(Object::Array(array.raw())),
        Err(_) => Multiset::empty(),
    }
}

/// The handles that an operation borrows: those of its operands and of its stream.
pub open spec fn borrowed_by(plan: OpPlan) -> Set<Object> {
    Set::new(
        |o: Object|
            match o {
                Object::Array(array) => reads(plan.op, array),
                Object::Stream(stream) => stream == plan.stream,
                _ => false,
            },
    )
}

/// Building an array hands over that array and nothing else.
pub proof fn building_conserves<'a, T: Copy>(plan: BuildPlan<'a, T>, replies: Seq<Reply<T>>)
    ensures
        conserves(
            build_calls(plan),
            replies,
            Set::empty(),
            Multiset::empty(),
            Multiset::singleton(Object::Array(replies[1]->Array_0)),
        ),
{
    reveal_with_fuel(tally, 3);
}

/// The handle of an operation's result, if it succeeds.
spec fn produced<T>(replies: Seq<Reply<T>>) -> Multiset<Object> {
    if failed(replies[2]) {
        Multiset::empty()
    } else {
        Multiset::singleton(Object::Array(replies[2]->out))
    }
}

/// The handles of an operation.
proof fn lemma_operation<'a, T: Copy>(plan: OpPlan<'a>, replies: Seq<Reply<T>>)
    ensures
        conserves(
            op_calls(plan, replies),
            replies,
            borrowed_by(plan),
            Multiset::empty(),
            produced(replies),
        ),
{
    reveal_with_fuel(tally, 5);
}

/// An operation borrows its operands and its stream. It hands over its result if it succeeds, and
/// nothing if it fails.
pub proof fn operation_conserves<'a, T: Copy>(
    plan: OpPlan<'a>,
    replies: Seq<Reply<T>>,
    output: Result<Array, Error>,
)
    requires
        op_gives(replies, output),
    ensures
        conserves(
            op_calls(plan, replies),
            replies,
            borrowed_by(plan),
            Multiset::empty(),
            owned_by(output),
        ),
{
    lemma_operation(plan, replies);
}

/// Getting a stream hands over that stream and nothing else.
pub proof fn getting_a_stream_conserves<'a, T: Copy>(plan: StreamPlan, replies: Seq<Reply<T>>)
    ensures
        conserves(
            stream_calls::<'a>(plan, replies),
            replies,
            Set::empty(),
            Multiset::empty(),
            Multiset::singleton(Object::Stream(stream_given(plan, replies))),
        ),
{
    reveal_with_fuel(tally, 7);
}

/// Making a stream the default borrows that stream, and hands over nothing.
pub proof fn setting_the_default_conserves<'a, T: Copy>(
    stream: RawStream,
    replies: Seq<Reply<T>>,
)
    ensures
        conserves(
            set_default_calls::<'a>(stream, replies),
            replies,
            set![Object::Stream(stream)],
            Multiset::empty(),
            Multiset::empty(),
        ),
{
    reveal_with_fuel(tally, 7);
}

/// Asking for a number of an array borrows that array, and hands over nothing.
pub proof fn counting_conserves<'a, T: Copy>(plan: CountPlan, replies: Seq<Reply<T>>)
    ensures
        conserves(
            <CountTask<'a, T> as Task<'a, T>>::calls(plan, replies),
            replies,
            match plan {
                CountPlan::Size { array } => set![Object::Array(array)],
                CountPlan::Ndim { array } => set![Object::Array(array)],
            },
            Multiset::empty(),
            Multiset::empty(),
        ),
{
    reveal_with_fuel(tally, 2);
}

/// Asking for the element type, the shape, the strides or the layout of an array and evaluating it
/// borrow that array, and hand over nothing.
pub proof fn querying_conserves<'a, T: Copy>(array: RawArray, replies: Seq<Reply<T>>)
    ensures
        conserves(
            <DtypeTask<'a, T> as Task<'a, T>>::calls(array, replies),
            replies,
            set![Object::Array(array)],
            Multiset::empty(),
            Multiset::empty(),
        ),
        conserves(
            <ShapeTask<'a, T> as Task<'a, T>>::calls(array, replies),
            replies,
            set![Object::Array(array)],
            Multiset::empty(),
            Multiset::empty(),
        ),
        conserves(
            <StridesTask<'a, T> as Task<'a, T>>::calls(array, replies),
            replies,
            set![Object::Array(array)],
            Multiset::empty(),
            Multiset::empty(),
        ),
        conserves(
            layout_calls::<'a>(array, replies),
            replies,
            set![Object::Array(array)],
            Multiset::empty(),
            Multiset::empty(),
        ),
        conserves(
            <EvalTask<'a, T> as Task<'a, T>>::calls(array, replies),
            replies,
            set![Object::Array(array)],
            Multiset::empty(),
            Multiset::empty(),
        ),
{
    reveal_with_fuel(tally, 4);
}

/// Reading the value of an array borrows that array, and hands over nothing.
pub proof fn reading_an_item_conserves<'a, T: Copy>(array: RawArray, replies: Seq<Reply<T>>)
    ensures
        conserves(
            item_calls::<'a>(array, replies),
            replies,
            set![Object::Array(array)],
            Multiset::empty(),
            Multiset::empty(),
        ),
{
    reveal_with_fuel(tally, 5);
}

/// Copying the storage buffer of an array borrows that array, and hands over nothing.
pub proof fn reading_a_buffer_conserves<'a, T: Copy>(plan: ReadPlan, replies: Seq<Reply<T>>)
    ensures
        conserves(
            read_calls::<'a>(plan, replies),
            replies,
            set![Object::Array(plan.array)],
            Multiset::empty(),
            Multiset::empty(),
        ),
{
    reveal_with_fuel(tally, 4);
}

/// Getting the description of an array borrows that array; nothing is handed over.
pub proof fn describing_conserves<'a, T: Copy>(plan: DescribePlan, replies: Seq<Reply<T>>)
    ensures
        conserves(
            describe_calls::<'a>(plan, replies),
            replies,
            match plan {
                DescribePlan::Array { array } => set![Object::Array(array)],
                DescribePlan::Version => Set::empty(),
            },
            Multiset::empty(),
            Multiset::empty(),
        ),
{
    reveal_with_fuel(tally, 6);
}

/// Releasing an array gives its handle back.
pub proof fn releasing_an_array_conserves<T: Copy>(array: RawArray, replies: Seq<Reply<T>>)
    ensures
        conserves(
            seq![Call::FreeArray { array }],
            replies,
            Set::empty(),
            Multiset::singleton(Object::Array(array)),
            Multiset::empty(),
        ),
{
    reveal_with_fuel(tally, 2);
}

/// Releasing a stream gives its handle back.
pub proof fn releasing_a_stream_conserves<T: Copy>(stream: RawStream, replies: Seq<Reply<T>>)
    ensures
        conserves(
            seq![Call::FreeStream { stream }],
            replies,
            Set::empty(),
            Multiset::singleton(Object::Stream(stream)),
            Multiset::empty(),
        ),
{
    reveal_with_fuel(tally, 2);
}

/// The handles of what comes after a row-contiguous copy is there: it is evaluated, read and freed.
proof fn lemma_copied<'a, T: Copy>(
    plan: ReadPlan,
    replies: Seq<Reply<T>>,
    borrowed: Set<Object>,
)
    requires
        replies.len() >= 3 + read_calls::<'a, T>(plan, after(replies, 2)).len(),
    ensures
        conserves(
            seq![Call::Install, Call::Eval { array: plan.array }] + read_calls(
                plan,
                after(replies, 2),
            ) + seq![Call::FreeArray { array: plan.array }],
            replies,
            borrowed,
            Multiset::singleton(Object::Array(plan.array)),
            Multiset::empty(),
        ),
{
    let copy = Multiset::singleton(Object::Array(plan.array));
    let none = Multiset::<Object>::empty();
    let eval: Seq<Call<T>> = seq![Call::Install, Call::Eval { array: plan.array }];
    let read = read_calls(plan, after(replies, 2));
    let free: Seq<Call<T>> = seq![Call::FreeArray { array: plan.array }];
    assert(conserves(eval, replies, borrowed, copy, copy)) by {
        reveal_with_fuel(tally, 3);
    }
    reading_a_buffer_conserves::<T>(plan, after(replies, 2));
    let lent = set![Object::Array(plan.array)];
    lemma_frame(read, after(replies, 2), lent, borrowed, none, none, copy);
    assert(copy.add(none) =~= copy);
    lemma_sequence(eval, read, replies, borrowed, copy, copy, copy);
    let rest = after(replies, (eval + read).len() as int);
    releasing_an_array_conserves::<T>(plan.array, rest);
    lemma_frame(free, rest, Set::empty(), borrowed, copy, none, none);
    assert(none.add(copy) =~= copy);
    lemma_sequence(eval + read, free, replies, borrowed, copy, copy, none);
}

/// Reading an array through a row-contiguous copy borrows that array, and hands over nothing: the
/// stream and the copy are freed on the way.
pub proof fn copying_conserves<'a, T: Copy>(plan: ReadPlan, replies: Seq<Reply<T>>)
    requires
        copy_calls::<'a, T>(plan, replies).len() <= replies.len(),
    ensures
        conserves(
            copy_calls::<'a>(plan, replies),
            replies,
            set![Object::Array(plan.array)],
            Multiset::empty(),
            Multiset::empty(),
        ),
{
    let borrowed = set![Object::Array(plan.array)];
    let none = Multiset::<Object>::empty();
    let stream = Multiset::singleton(Object::Stream(replies[1]->Stream_0));
    let made = produced(after(replies, 2));
    let copy = copy_plan::<T>(plan.array, replies);
    let get = stream_calls::<'a, T>(StreamPlan::Cpu, replies);
    let run = op_calls::<T>(copy, after(replies, 2));
    let free: Seq<Call<T>> = seq![Call::FreeStream { stream: replies[1]->Stream_0 }];
    getting_a_stream_conserves::<T>(StreamPlan::Cpu, replies);
    lemma_frame(get, replies, Set::empty(), borrowed, none, stream, none);
    assert(none.add(stream) =~= stream);
    lemma_operation::<T>(copy, after(replies, 2));
    lemma_frame(run, after(replies, 2), borrowed_by(copy), borrowed, none, made, stream);
    lemma_sequence(get, run, replies, borrowed, none, stream, stream.add(made));
    let freeing = after(replies, (get + run).len() as int);
    releasing_a_stream_conserves::<T>(replies[1]->Stream_0, freeing);
    lemma_frame(free, freeing, Set::empty(), borrowed, stream, none, made);
    assert(made.add(stream) =~= stream.add(made));
    lemma_sequence(get + run, free, replies, borrowed, none, stream.add(made), made);
    let before = get + run + free;
    assert(after(replies, 2)[2] == replies[4]);
    if failed(replies[4]) {
        assert(copy_calls::<'a>(plan, replies) =~= before);
    } else {
        let read = ReadPlan { array: replies[4]->out, dtype: plan.dtype };
        lemma_after_after(replies, 6, 2);
        lemma_copied::<T>(read, after(replies, 6), borrowed);
        let last: Seq<Call<T>> = seq![Call::Install, Call::Eval { array: read.array }] + read_calls(
            read,
            after(replies, 8),
        ) + seq![Call::FreeArray { array: read.array }];
        lemma_sequence(before, last, replies, borrowed, none, made, none);
        assert(copy_calls::<'a>(plan, replies) =~= before + last);
    }
}

/// Reading the elements of an array borrows that array, and hands over nothing.
pub proof fn reading_conserves<'a, T: Copy>(plan: ReadPlan, replies: Seq<Reply<T>>)
    requires
        to_vec_calls::<'a, T>(plan, replies).len() <= replies.len(),
    ensures
        conserves(
            to_vec_calls::<'a>(plan, replies),
            replies,
            set![Object::Array(plan.array)],
            Multiset::empty(),
            Multiset::empty(),
        ),
{
    let borrowed = set![Object::Array(plan.array)];
    let none = Multiset::<Object>::empty();
    let first = eval_calls::<'a, T>(plan.array, replies);
    assert(conserves(first, replies, borrowed, none, none)) by {
        reveal_with_fuel(tally, 6);
    }
    if contiguous(replies) {
        let rest = read_calls::<'a, T>(plan, after(replies, 5));
        reading_a_buffer_conserves::<T>(plan, after(replies, 5));
        lemma_sequence(first, rest, replies, borrowed, none, none, none);
    } else {
        let rest = copy_calls::<'a, T>(plan, after(replies, 5));
        copying_conserves::<T>(plan, after(replies, 5));
        lemma_sequence(first, rest, replies, borrowed, none, none, none);
    }
}

/// Filling a shape with a value borrows the stream. It hands over its result if it succeeds, and
/// nothing if it fails: the array that the value became is freed on the way.
pub proof fn filling_conserves<'a, T: Copy>(
    plan: FullPlan<'a, T>,
    replies: Seq<Reply<T>>,
    output: Result<Array, Error>,
)
    requires
        full_calls(plan, replies).len() <= replies.len(),
        <FullTask<'a, T> as Task<'a, T>>::gives(plan, replies, output),
    ensures
        conserves(
            full_calls(plan, replies),
            replies,
            set![Object::Stream(plan.stream)],
            Multiset::empty(),
            owned_by(output),
        ),
{
    let borrowed = set![Object::Stream(plan.stream)];
    let none = Multiset::<Object>::empty();
    let vals = replies[1]->Array_0;
    let built = Multiset::singleton(Object::Array(vals));
    let made = owned_by(output);
    let scalar = BuildPlan::Scalar { value: plan.value, dtype: plan.dtype };
    let build = build_calls(scalar);
    let run = op_calls(spread(plan, vals), after(replies, 2));
    let free: Seq<Call<T>> = seq![Call::FreeArray { array: vals }];
    building_conserves(scalar, replies);
    lemma_frame(build, replies, Set::empty(), borrowed, none, built, none);
    assert(none.add(built) =~= built);
    operation_conserves(spread(plan, vals), after(replies, 2), output);
    lemma_frame(
        run,
        after(replies, 2),
        borrowed_by(spread(plan, vals)),
        borrowed,
        none,
        made,
        built,
    );
    lemma_sequence(build, run, replies, borrowed, none, built, built.add(made));
    let freeing = after(replies, (build + run).len() as int);
    releasing_an_array_conserves::<T>(vals, freeing);
    lemma_frame(free, freeing, Set::empty(), borrowed, built, none, made);
    assert(made.add(built) =~= built.add(made));
    lemma_sequence(build + run, free, replies, borrowed, none, built.add(made), made);
}

/// The handle that an operation's result takes the place of.
pub open spec fn replaced_by(replaced: Option<RawArray>) -> Multiset<Object> {
    match replaced {
        Some(array) => Multiset::singleton(Object::Array(array)),
        None => Multiset::empty(),
    }
}

/// The handles that are there after an operation whose result takes the place of `replaced`: the
/// result's if it succeeds, and that of `replaced`, which stays, if it fails.
pub open spec fn replacing<E>(
    replaced: Option<RawArray>,
    output: Result<Array, E>,
) -> Multiset<Object> {
    match output {
        Ok(_) => owned_by(output),
        Err(_) => replaced_by(replaced),
    }
}

/// The handles that an operation on the default stream borrows: those of its operands, but for the
/// one whose place its result takes.
pub open spec fn operands(plan: DefaultPlan) -> Set<Object> {
    Set::new(
        |o: Object|
            o matches Object::Array(array) && reads(plan.op, array) && plan.replaced != Some(array),
    )
}

/// Running an operation on the default stream borrows its operands. If its result takes the place
/// of an array, that array is given up if the operation succeeds, and stays if it fails. The
/// stream is freed either way.
pub proof fn running_on_the_default_stream_conserves<'a, T: Copy>(
    plan: DefaultPlan<'a>,
    replies: Seq<Reply<T>>,
    output: Result<Array, Error>,
)
    requires
        default_calls::<T>(plan, replies).len() <= replies.len(),
        <DefaultTask<'a, T> as Task<'a, T>>::gives(plan, replies, output),
    ensures
        conserves(
            default_calls(plan, replies),
            replies,
            operands(plan),
            replaced_by(plan.replaced),
            replacing(plan.replaced, output),
        ),
{
    let borrowed = operands(plan);
    let none = Multiset::<Object>::empty();
    let target = replaced_by(plan.replaced);
    let raw = replies[4]->Stream_0;
    let stream = Multiset::singleton(Object::Stream(raw));
    let made = owned_by(output);
    let kept = replacing(plan.replaced, output);
    let get = stream_calls::<'a, T>(StreamPlan::Default, replies);
    let run = op_calls(on_default(plan.op, replies), after(replies, 6));
    let replace = replace_calls::<'a, T>(plan.replaced, failed(replies[8]));
    let free: Seq<Call<T>> = seq![Call::FreeStream { stream: raw }];
    getting_a_stream_conserves::<T>(StreamPlan::Default, replies);
    lemma_frame(get, replies, Set::empty(), borrowed, none, stream, target);
    let held = target.add(stream);
    operation_conserves(on_default(plan.op, replies), after(replies, 6), output);
    lemma_frame(
        run,
        after(replies, 6),
        borrowed_by(on_default(plan.op, replies)),
        borrowed,
        none,
        made,
        held,
    );
    lemma_sequence(get, run, replies, borrowed, target, held, held.add(made));
    let replacing_replies = after(replies, (get + run).len() as int);
    let rest = stream.add(kept);
    assert(after(replies, 6)[2] == replies[8]);
    assert(conserves(replace, replacing_replies, borrowed, held.add(made), rest)) by {
        reveal_with_fuel(tally, 2);
    }
    lemma_sequence(get + run, replace, replies, borrowed, target, held.add(made), rest);
    let before = get + run + replace;
    let freeing = after(replies, before.len() as int);
    releasing_a_stream_conserves::<T>(raw, freeing);
    lemma_frame(free, freeing, Set::empty(), borrowed, stream, none, kept);
    assert(kept.add(stream) =~= rest);
    lemma_sequence(before, free, replies, borrowed, target, rest, kept);
}

/// The operands of an operator that are arrays of the caller's and stay so: all but the one whose
/// place the result takes.
pub open spec fn lent<T>(plan: OperatorPlan<T>) -> Set<Object> {
    match plan {
        OperatorPlan::Arrays { lhs, rhs, .. } => set![Object::Array(lhs), Object::Array(rhs)],
        OperatorPlan::ScalarRight { lhs, .. } => set![Object::Array(lhs)],
        OperatorPlan::ScalarLeft { rhs, .. } => set![Object::Array(rhs)],
        OperatorPlan::Negate { operand } => set![Object::Array(operand)],
        OperatorPlan::Assign { rhs, .. } => set![Object::Array(rhs)],
        OperatorPlan::AssignScalar { .. } => Set::empty(),
    }
}

/// An operator borrows the operands that are arrays. If it assigns, its left operand is given up
/// if the operation succeeds, and stays if it fails. It hands over its result, and nothing if it
/// fails: the stream, and the array that a plain value became, are freed on the way.
pub proof fn operators_conserve<'a, T: Copy>(
    plan: OperatorPlan<T>,
    replies: Seq<Reply<T>>,
    output: Result<Array, OperatorError>,
)
    requires
        operator_calls::<'a>(plan, replies).len() <= replies.len(),
        operator_gives(plan, replies, output),
    ensures
        conserves(
            operator_calls::<'a>(plan, replies),
            replies,
            lent(plan),
            replaced_by(plan.replaced()),
            replacing(plan.replaced(), output),
        ),
{
    let outcome = match output {
        Ok(array) => Ok(array),
        Err(failure) => Err(failure.error),
    };
    let target = replaced_by(plan.replaced());
    let kept = replacing(plan.replaced(), output);
    let none = Multiset::<Object>::empty();
    match plan.scalar::<'a>() {
        None => {
            let run = plan.run(RawArray { ctx: 0 });
            running_on_the_default_stream_conserves(run, replies, outcome);
            let calls = operator_calls::<'a>(plan, replies);
            lemma_frame(calls, replies, operands(run), lent(plan), target, kept, none);
            assert(none.add(target) =~= target);
            assert(none.add(kept) =~= kept);
        },
        Some(scalar) => {
            let raw = replies[1]->Array_0;
            let built = Multiset::singleton(Object::Array(raw));
            let build = build_calls(scalar);
            let plan_run = plan.run(raw);
            let run = default_calls(plan_run, after(replies, 2));
            let free: Seq<Call<T>> = seq![Call::FreeArray { array: raw }];
            building_conserves(scalar, replies);
            lemma_frame(build, replies, Set::empty(), lent(plan), none, built, target);
            lemma_after_after(replies, 2, 6);
            running_on_the_default_stream_conserves(plan_run, after(replies, 2), outcome);
            let later = after(replies, 2);
            lemma_frame(run, later, operands(plan_run), lent(plan), target, kept, built);
            assert(built.add(target) =~= target.add(built));
            lemma_sequence(
                build,
                run,
                replies,
                lent(plan),
                target,
                built.add(target),
                built.add(kept),
            );
            let freeing = after(replies, (build + run).len() as int);
            releasing_an_array_conserves::<T>(raw, freeing);
            lemma_frame(free, freeing, Set::empty(), lent(plan), built, none, kept);
            assert(kept.add(built) =~= built.add(kept));
            lemma_sequence(build + run, free, replies, lent(plan), target, built.add(kept), kept);
        },
    }
}

} // verus!
