//! Tasks: pieces of work that need several calls to MLX, one after the other.
//!
//! A task says which call it needs next, and goes on when it is handed the reply.

use vstd::prelude::*;

use crate::call::{answers, Call, Reply};

verus! {

/// What a task has come to once a reply is in.
pub enum Step<K, O> {
    /// It needs another call.
    More(K),
    /// It is done.
    Done(O),
}

/// The replies from the `n`-th on.
pub open spec fn after<T>(replies: Seq<Reply<T>>, n: int) -> Seq<Reply<T>> {
    if n <= replies.len() {
        replies.skip(n)
    } else {
        Seq::empty()
    }
}

/// A reply that comes in is the last of the replies from the `n`-th on.
pub proof fn lemma_after_push<T>(replies: Seq<Reply<T>>, reply: Reply<T>, n: int)
    requires
        0 <= n <= replies.len(),
    ensures
        after(replies.push(reply), n) == after(replies, n).push(reply),
{
    assert(after(replies.push(reply), n) =~= after(replies, n).push(reply));
}

/// The two sequences of replies begin with the same `n` replies.
pub open spec fn agree<T>(a: Seq<Reply<T>>, b: Seq<Reply<T>>, n: int) -> bool {
    &&& n <= a.len()
    &&& n <= b.len()
    &&& forall|i: int| 0 <= i < n ==> #[trigger] a[i] == b[i]
}

/// A piece of work that needs calls to MLX. `T` is the type of the elements that it carries.
///
/// What a task does is fixed by its plan and by the replies that it gets: `calls` lists the calls
/// that it makes, in order, and `gives` says what it comes to in the end. Later calls use what
/// earlier replies brought, so the list is given the replies; the place of a call in it depends on
/// the replies to the calls before that place alone.
pub trait Task<'a, T: Copy>: Sized {
    type Plan;

    type Output;

    /// What the task was made to do.
    spec fn plan(&self) -> Self::Plan;

    /// The replies that the task has got so far.
    spec fn replies(&self) -> Seq<Reply<T>>;

    /// The calls that a task with this plan makes, given these replies.
    spec fn calls(plan: Self::Plan, replies: Seq<Reply<T>>) -> Seq<Call<'a, T>>;

    /// What a task with this plan comes to when these are the replies to all its calls.
    spec fn gives(plan: Self::Plan, replies: Seq<Reply<T>>, output: Self::Output) -> bool;

    /// The place of a call depends on the replies to the calls before that place alone.
    proof fn calls_are_causal(
        plan: Self::Plan,
        a: Seq<Reply<T>>,
        b: Seq<Reply<T>>,
        n: int,
    )
        requires
            0 <= n < Self::calls(plan, a).len(),
            agree(a, b, n),
        ensures
            n < Self::calls(plan, b).len(),
            Self::calls(plan, a)[n] == Self::calls(plan, b)[n],
    ;

    /// The call that the task needs next.
    fn call(&self) -> (call: Call<'a, T>)
        ensures
            self.replies().len() < Self::calls(self.plan(), self.replies()).len(),
            call == Self::calls(self.plan(), self.replies())[self.replies().len() as int],
    ;

    /// Goes on with the reply to that call.
    fn resume(self, reply: Reply<T>) -> (step: Step<Self, Self::Output>)
        requires
            answers(
                Self::calls(self.plan(), self.replies())[self.replies().len() as int],
                reply,
            ),
        ensures
            match step {
                Step::More(next) => {
                    &&& next.plan() == self.plan()
                    &&& next.replies() == self.replies().push(reply)
                    &&& next.replies().len() < Self::calls(next.plan(), next.replies()).len()
                },
                Step::Done(output) => {
                    let all = self.replies().push(reply);
                    &&& all.len() == Self::calls(self.plan(), all).len()
                    &&& Self::gives(self.plan(), all, output)
                },
            },
    ;
}

/// Each reply is of the kind that its call has.
pub open spec fn answered<'a, T: Copy, K: Task<'a, T>>(
    plan: K::Plan,
    replies: Seq<Reply<T>>,
) -> bool {
    &&& replies.len() <= K::calls(plan, replies).len()
    &&& forall|i: int|
        0 <= i < replies.len() ==> answers(#[trigger] K::calls(plan, replies)[i], replies[i])
}

/// A task whose calls have been answered one by one has been answered throughout: a further reply
/// changes nothing about the calls before it, so the list that a task's replies give in the end
/// holds the very calls that it made.
pub proof fn replies_stay_answered<'a, T: Copy, K: Task<'a, T>>(
    plan: K::Plan,
    replies: Seq<Reply<T>>,
    reply: Reply<T>,
)
    requires
        answered::<T, K>(plan, replies),
        replies.len() < K::calls(plan, replies).len(),
        answers(K::calls(plan, replies)[replies.len() as int], reply),
    ensures
        answered::<T, K>(plan, replies.push(reply)),
        forall|i: int|
            0 <= i <= replies.len() ==> #[trigger] K::calls(plan, replies.push(reply))[i]
                == K::calls(plan, replies)[i],
{
    let more = replies.push(reply);
    assert forall|i: int| 0 <= i <= replies.len() implies #[trigger] K::calls(plan, more)[i]
        == K::calls(plan, replies)[i] && i < K::calls(plan, more).len() by {
        K::calls_are_causal(plan, replies, more, i);
    }
    assert(K::calls(plan, more)[replies.len() as int] == K::calls(
        plan,
        replies,
    )[replies.len() as int]);
}

} // verus!
