//! Which text comes out when a text is asked for.
//!
//! MLX writes texts into strings of its own. What the library does with them is stated against
//! that.

use vstd::prelude::*;

use crate::call::{Call, RawArray, RawString, Reply};
use crate::describe::{DescribePlan, DescribeTask};
use crate::task::Task;

verus! {

/// The strings behind the handles that are in use, and the texts that MLX writes.
pub struct Printer {
    pub strings: Map<RawString, Seq<char>>,
    pub descriptions: Map<RawArray, Seq<char>>,
    pub version: Seq<char>,
}

impl Printer {
    /// The same, but for a string that holds this text.
    pub open spec fn holding(self, string: RawString, text: Seq<char>) -> Printer {
        Printer { strings: self.strings.insert(string, text), ..self }
    }
}

/// What a call does to the strings, and what its reply says of them. A call of which nothing is
/// said here leaves them as they are.
pub open spec fn prints<T>(
    call: Call<T>,
    reply: Reply<T>,
    printer: Printer,
    next: Printer,
) -> bool {
    match call {
        Call::NewString => next == printer.holding(reply->String_0, Seq::empty()),
        Call::ArrayText { array, .. } => next == printer.holding(
            reply->String_0,
            printer.descriptions[array],
        ),
        Call::Version { .. } => next == printer.holding(reply->String_0, printer.version),
        Call::StringData { string } => next == printer && (printer.strings.contains_key(string)
            ==> reply->Text_0@ == printer.strings[string]),
        Call::FreeString { string } => next == (Printer {
            strings: printer.strings.remove(string),
            ..printer
        }),
        _ => next == printer,
    }
}

/// The text of an array is the description that MLX writes of that array, and the version is the
/// version that it writes: all of it, and nothing else.
pub proof fn texts_come_out_as_written<'a, T: Copy + 'a>(
    plan: DescribePlan,
    replies: Seq<Reply<T>>,
    output: String,
    states: Seq<Printer>,
)
    requires
        ({
            let calls = <DescribeTask<'a, T> as Task<'a, T>>::calls(plan, replies);
            &&& replies.len() == calls.len()
            &&& states.len() == calls.len() + 1
            &&& forall|i: int|
                0 <= i < calls.len() ==> prints(
                    #[trigger] calls[i],
                    replies[i],
                    states[i],
                    states[i + 1],
                )
        }),
        <DescribeTask<'a, T> as Task<'a, T>>::gives(plan, replies, output),
    ensures
        output@ == match plan {
            DescribePlan::Array { array } => states[0].descriptions[array],
            DescribePlan::Version => states[0].version,
        },
{
    let calls = <DescribeTask<'a, T> as Task<'a, T>>::calls(plan, replies);
    assert(prints(calls[0], replies[0], states[0], states[1]));
    assert(prints(calls[1], replies[1], states[1], states[2]));
    assert(prints(calls[2], replies[2], states[2], states[3]));
    assert(prints(calls[3], replies[3], states[3], states[4]));
}

} // verus!
