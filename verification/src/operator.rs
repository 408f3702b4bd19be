//! Arithmetic operators.
//!
//! Operators run on the current default stream. An operand may be a plain value, which becomes an
//! array without dimensions that is spread over the other operand. An assigning operator does not
//! mutate in place: the result takes the place of the left operand, whose handle is freed.

use vstd::prelude::*;
use vstd::string::*;

use crate::array::Array;
use crate::call::{BinaryOp, Call, Op, RawArray, Reply, UnaryOp};
use crate::construct::{build_calls, BuildPlan, BuildTask};
use crate::default_stream::{default_calls, DefaultPlan, DefaultTask};
use crate::dtype::Dtype;
use crate::error::Error;
use crate::op::{failed, op_calls, op_gives, OpPlan};
use crate::stream::{stream_calls, stream_given, StreamPlan};
use crate::task::{after, agree, lemma_after_push, Step, Task};

verus! {

/// The arithmetic operators of two operands.
#[derive(Clone, Copy, PartialEq, Eq, Structural, Debug)]
pub enum Arith {
    Add,
    Subtract,
    Multiply,
    Divide,
}

impl Arith {
    /// The operation behind the operator.
    pub open spec fn operation(self) -> BinaryOp {
        match self {
            Arith::Add => BinaryOp::Add,
            Arith::Subtract => BinaryOp::Subtract,
            Arith::Multiply => BinaryOp::Multiply,
            Arith::Divide => BinaryOp::Divide,
        }
    }

    /// The name of the method behind the operator.
    pub open spec fn method(self) -> Seq<char> {
        match self {
            Arith::Add => "add"@,
            Arith::Subtract => "subtract"@,
            Arith::Multiply => "multiply"@,
            Arith::Divide => "divide"@,
        }
    }

    /// The operation behind the operator.
    pub fn binary(self) -> (op: BinaryOp)
        ensures
            op == self.operation(),
    {
        match self {
            Arith::Add => BinaryOp::Add,
            Arith::Subtract => BinaryOp::Subtract,
            Arith::Multiply => BinaryOp::Multiply,
            Arith::Divide => BinaryOp::Divide,
        }
    }

    /// The name of the method behind the operator.
    pub fn name(self) -> (name: &'static str)
        ensures
            name@ == self.method(),
    {
        match self {
            Arith::Add => "add",
            Arith::Subtract => "subtract",
            Arith::Multiply => "multiply",
            Arith::Divide => "divide",
        }
    }
}

/// An expression with an operator.
#[derive(Debug)]
pub enum OperatorPlan<T> {
    /// `&lhs op &rhs`
    Arrays { op: Arith, lhs: RawArray, rhs: RawArray },
    /// `&lhs op value`
    ScalarRight { op: Arith, lhs: RawArray, value: T, dtype: Dtype },
    /// `value op &rhs`
    ScalarLeft { op: Arith, value: T, dtype: Dtype, rhs: RawArray },
    /// `-&operand`
    Negate { operand: RawArray },
    /// `target op= &rhs`
    Assign { op: Arith, target: RawArray, rhs: RawArray },
    /// `target op= value`
    AssignScalar { op: Arith, target: RawArray, value: T, dtype: Dtype },
}

impl<T> OperatorPlan<T> {
    /// The plain value among the operands, as an array to build.
    pub open spec fn scalar<'a>(self) -> Option<BuildPlan<'a, T>> {
        match self {
            OperatorPlan::ScalarRight { value, dtype, .. }
            | OperatorPlan::ScalarLeft { value, dtype, .. }
            | OperatorPlan::AssignScalar { value, dtype, .. } => Some(
                BuildPlan::Scalar { value, dtype },
            ),
            _ => None,
        }
    }

    /// The operation to run, where `scalar` is the array that the plain value has become.
    pub open spec fn operation<'a>(self, scalar: RawArray) -> Op<'a> {
        match self {
            OperatorPlan::Arrays { op, lhs, rhs } => {
                Op::Binary { op: op.operation(), a: lhs, b: rhs }
            },
            OperatorPlan::ScalarRight { op, lhs, .. } => {
                Op::Binary { op: op.operation(), a: lhs, b: scalar }
            },
            OperatorPlan::ScalarLeft { op, rhs, .. } => {
                Op::Binary { op: op.operation(), a: scalar, b: rhs }
            },
            OperatorPlan::Negate { operand } => Op::Unary { op: UnaryOp::Negative, a: operand },
            OperatorPlan::Assign { op, target, rhs } => {
                Op::Binary { op: op.operation(), a: target, b: rhs }
            },
            OperatorPlan::AssignScalar { op, target, .. } => {
                Op::Binary { op: op.operation(), a: target, b: scalar }
            },
        }
    }

    /// The array whose place the result takes.
    pub open spec fn replaced(self) -> Option<RawArray> {
        match self {
            OperatorPlan::Assign { target, .. } | OperatorPlan::AssignScalar { target, .. } => Some(
                target,
            ),
            _ => None,
        }
    }

    /// The name of the method behind the operator.
    pub open spec fn method(self) -> Seq<char> {
        match self {
            OperatorPlan::Arrays { op, .. }
            | OperatorPlan::ScalarRight { op, .. }
            | OperatorPlan::ScalarLeft { op, .. }
            | OperatorPlan::Assign { op, .. }
            | OperatorPlan::AssignScalar { op, .. } => op.method(),
            OperatorPlan::Negate { .. } => "negative"@,
        }
    }

    /// The operation to run on the default stream, where `scalar` is the array that the plain
    /// value has become.
    pub open spec fn run<'a>(self, scalar: RawArray) -> DefaultPlan<'a> {
        DefaultPlan { op: self.operation(scalar), replaced: self.replaced() }
    }

    /// The operation to run on the default stream.
    fn to_run<'a>(&self, scalar: RawArray) -> (plan: DefaultPlan<'a>)
        ensures
            plan == self.run(scalar),
    {
        match self {
            OperatorPlan::Arrays { op, lhs, rhs } => DefaultPlan {
                op: Op::Binary { op: op.binary(), a: *lhs, b: *rhs },
                replaced: None,
            },
            OperatorPlan::ScalarRight { op, lhs, .. } => DefaultPlan {
                op: Op::Binary { op: op.binary(), a: *lhs, b: scalar },
                replaced: None,
            },
            OperatorPlan::ScalarLeft { op, rhs, .. } => DefaultPlan {
                op: Op::Binary { op: op.binary(), a: scalar, b: *rhs },
                replaced: None,
            },
            OperatorPlan::Negate { operand } => DefaultPlan {
                op: Op::Unary { op: UnaryOp::Negative, a: *operand },
                replaced: None,
            },
            OperatorPlan::Assign { op, target, rhs } => DefaultPlan {
                op: Op::Binary { op: op.binary(), a: *target, b: *rhs },
                replaced: Some(*target),
            },
            OperatorPlan::AssignScalar { op, target, .. } => DefaultPlan {
                op: Op::Binary { op: op.binary(), a: *target, b: scalar },
                replaced: Some(*target),
            },
        }
    }

    /// The name of the method behind the operator.
    fn name(&self) -> (name: &'static str)
        ensures
            name@ == self.method(),
    {
        match self {
            OperatorPlan::Arrays { op, .. } => op.name(),
            OperatorPlan::ScalarRight { op, .. } => op.name(),
            OperatorPlan::ScalarLeft { op, .. } => op.name(),
            OperatorPlan::Assign { op, .. } => op.name(),
            OperatorPlan::AssignScalar { op, .. } => op.name(),
            OperatorPlan::Negate { .. } => "negative",
        }
    }
}

/// The operation behind an operator failed.
#[derive(Debug)]
pub struct OperatorError {
    /// The name of the method behind the operator.
    pub method: &'static str,
    /// What MLX reported.
    pub error: Error,
}

impl OperatorError {
    /// What the error prints.
    pub open spec fn text(&self) -> Seq<char> {
        "Array::"@ + self.method@ + " failed: "@ + self.error.text()
    }

    /// The error as it is shown to people.
    pub fn describe(&self) -> (text: String)
        ensures
            text@ == self.text(),
    {
        let mut text = String::from_str("Array::");
        text.append(self.method);
        text.append(" failed: ");
        text.append(self.error.describe().as_str());
        text
    }
}

/// The calls behind an operator. A plain value is built into an array first, which is freed at the
/// very end.
pub open spec fn operator_calls<'a, T>(plan: OperatorPlan<T>, replies: Seq<Reply<T>>) -> Seq<
    Call<'a, T>,
> {
    let built = replies[1]->Array_0;
    match plan.scalar() {
        Some(scalar) => build_calls(scalar) + default_calls(plan.run(built), after(replies, 2))
            + seq![Call::FreeArray { array: built }],
        None => default_calls(plan.run(RawArray { ctx: 0 }), replies),
    }
}

/// Where in the replies those to the operation itself begin.
pub open spec fn run_place<T>(plan: OperatorPlan<T>) -> int {
    match plan.scalar() {
        Some(_) => 8,
        None => 6,
    }
}

/// What an operator comes to.
pub open spec fn operator_gives<T>(
    plan: OperatorPlan<T>,
    replies: Seq<Reply<T>>,
    output: Result<Array, OperatorError>,
) -> bool {
    match output {
        Ok(array) => op_gives(after(replies, run_place(plan)), Ok(array)),
        Err(failure) => {
            &&& op_gives(after(replies, run_place(plan)), Err(failure.error))
            &&& failure.method@ == plan.method()
        },
    }
}

#[allow(inconsistent_fields)]
enum Stage<'a, T: Copy> {
    Build { task: BuildTask<'a, T> },
    RunBuilt { built: RawArray, task: DefaultTask<'a, T> },
    Run { task: DefaultTask<'a, T> },
    Free { built: RawArray, output: Result<Array, Error> },
}

/// Evaluates an expression with an operator.
pub struct OperatorTask<'a, T: Copy> {
    plan: OperatorPlan<T>,
    stage: Stage<'a, T>,
    replies: Ghost<Seq<Reply<T>>>,
}

impl<'a, T: Copy> OperatorTask<'a, T> {
    #[verifier::type_invariant]
    spec fn well_formed(self) -> bool {
        let replies = self.replies@;
        match self.stage {
            Stage::Build { task } => {
                &&& self.plan.scalar() == Some(task.plan())
                &&& task.replies() == replies
                &&& task.replies().len() < build_calls(task.plan()).len()
            },
            Stage::RunBuilt { built, task } => {
                &&& self.plan.scalar() is Some
                &&& replies.len() >= 2
                &&& replies[1]->Array_0 == built
                &&& task.plan() == self.plan.run(built)
                &&& task.replies() == after(replies, 2)
                &&& task.replies().len() < default_calls(task.plan(), task.replies()).len()
            },
            Stage::Run { task } => {
                &&& self.plan.scalar() is None
                &&& task.plan() == self.plan.run(RawArray { ctx: 0 })
                &&& task.replies() == replies
                &&& task.replies().len() < default_calls(task.plan(), task.replies()).len()
            },
            Stage::Free { built, output } => {
                &&& self.plan.scalar() is Some
                &&& replies.len() == 2 + default_calls(
                    self.plan.run(built),
                    after(replies, 2),
                ).len()
                &&& replies[1]->Array_0 == built
                &&& op_gives(after(after(replies, 2), 6), output)
            },
        }
    }

    /// A task that evaluates this expression.
    pub(crate) fn new(plan: OperatorPlan<T>) -> (task: Self)
        ensures
            task.plan() == plan,
            task.replies() == Seq::<Reply<T>>::empty(),
    {
        let stage = match plan {
            OperatorPlan::ScalarRight { value, dtype, .. } => {
                Stage::Build { task: BuildTask::from_scalar(value, dtype) }
            },
            OperatorPlan::ScalarLeft { value, dtype, .. } => {
                Stage::Build { task: BuildTask::from_scalar(value, dtype) }
            },
            OperatorPlan::AssignScalar { value, dtype, .. } => {
                Stage::Build { task: BuildTask::from_scalar(value, dtype) }
            },
            _ => Stage::Run { task: DefaultTask::new(plan.to_run(RawArray { ctx: 0 })) },
        };
        OperatorTask { plan, stage, replies: Ghost(Seq::empty()) }
    }
}

/// The outcome of the operation as the outcome of the operator.
fn finish<T>(plan: &OperatorPlan<T>, output: Result<Array, Error>) -> (result: Result<
    Array,
    OperatorError,
>)
    ensures
        match (output, result) {
            (Ok(array), Ok(same)) => array == same,
            (Err(error), Err(failure)) => {
                failure.error == error && failure.method@ == plan.method()
            },
            _ => false,
        },
{
    match output {
        Ok(array) => Ok(array),
        Err(error) => Err(OperatorError { method: plan.name(), error }),
    }
}

impl<'a, T: Copy> Task<'a, T> for OperatorTask<'a, T> {
    type Plan = OperatorPlan<T>;

    type Output = Result<Array, OperatorError>;

    closed spec fn plan(&self) -> OperatorPlan<T> {
        self.plan
    }

    closed spec fn replies(&self) -> Seq<Reply<T>> {
        self.replies@
    }

    open spec fn calls(plan: OperatorPlan<T>, replies: Seq<Reply<T>>) -> Seq<Call<'a, T>> {
        operator_calls(plan, replies)
    }

    open spec fn gives(
        plan: OperatorPlan<T>,
        replies: Seq<Reply<T>>,
        output: Result<Array, OperatorError>,
    ) -> bool {
        operator_gives(plan, replies, output)
    }

    proof fn calls_are_causal(
        plan: OperatorPlan<T>,
        a: Seq<Reply<T>>,
        b: Seq<Reply<T>>,
        n: int,
    ) {
        match plan.scalar::<'a>() {
            Some(_) => {
                assert(n > 1 ==> a[1] == b[1]);
                if n >= 2 {
                    let run = plan.run(a[1]->Array_0);
                    let (x, y) = (after(a, 2), after(b, 2));
                    assert(forall|i: int| 0 <= i < n - 2 ==> x[i] == a[i + 2] && y[i] == b[i + 2]);
                    assert(agree(x, y, n - 2));
                    let place = default_calls::<T>(run, x).len();
                    if n - 2 < place {
                        <DefaultTask<'a, T> as Task<'a, T>>::calls_are_causal(run, x, y, n - 2);
                    } else {
                        lemma_default_len(run, x, y, n - 2);
                    }
                }
            },
            None => {
                <DefaultTask<'a, T> as Task<'a, T>>::calls_are_causal(
                    plan.run(RawArray { ctx: 0 }),
                    a,
                    b,
                    n,
                );
            },
        }
    }

    fn call(&self) -> (call: Call<'a, T>) {
        proof {
            use_type_invariant(self);
        }
        match &self.stage {
            Stage::Build { task } => task.call(),
            Stage::RunBuilt { task, .. } => task.call(),
            Stage::Run { task } => task.call(),
            Stage::Free { built, .. } => Call::FreeArray { array: *built },
        }
    }

    fn resume(self, reply: Reply<T>) -> (step: Step<Self, Result<Array, OperatorError>>) {
        proof {
            use_type_invariant(&self);
        }
        let plan = self.plan;
        let ghost before = self.replies@;
        let replies: Ghost<Seq<Reply<T>>> = Ghost(self.replies@.push(reply));
        match self.stage {
            Stage::Build { task } => match task.resume(reply) {
                Step::More(task) => {
                    Step::More(OperatorTask { plan, stage: Stage::Build { task }, replies })
                },
                Step::Done(array) => {
                    let built = array.as_raw();
                    assert(after(replies@, 2) =~= Seq::<Reply<T>>::empty());
                    let task = DefaultTask::new(plan.to_run(built));
                    let stage = Stage::RunBuilt { built, task };
                    Step::More(OperatorTask { plan, stage, replies })
                },
            },
            Stage::RunBuilt { built, task } => {
                proof {
                    lemma_after_push(before, reply, 2);
                }
                match task.resume(reply) {
                    Step::More(task) => {
                        let stage = Stage::RunBuilt { built, task };
                        Step::More(OperatorTask { plan, stage, replies })
                    },
                    Step::Done(output) => {
                        let stage = Stage::Free { built, output };
                        Step::More(OperatorTask { plan, stage, replies })
                    },
                }
            },
            Stage::Run { task } => match task.resume(reply) {
                Step::More(task) => {
                    Step::More(OperatorTask { plan, stage: Stage::Run { task }, replies })
                },
                Step::Done(output) => Step::Done(finish(&plan, output)),
            },
            Stage::Free { output, .. } => {
                proof {
                    lemma_after_push(before, reply, 2);
                    lemma_after_push(before, reply, 8);
                    assert(after(after(before, 2), 6) =~= after(before, 8));
                }
                Step::Done(finish(&plan, output))
            },
        }
    }
}

/// Replies that agree this far also agree on whether the operation's calls are over.
proof fn lemma_default_len<'a, T: Copy>(
    plan: DefaultPlan<'a>,
    a: Seq<Reply<T>>,
    b: Seq<Reply<T>>,
    n: int,
)
    requires
        agree(a, b, n),
        default_calls::<T>(plan, a).len() <= n,
    ensures
        default_calls::<T>(plan, b).len() == default_calls::<T>(plan, a).len(),
{
    assert(a[8] == b[8]);
    assert(after(a, 6)[2] == a[8] && after(b, 6)[2] == b[8]);
}

/// `&lhs op &rhs`
pub fn array_op<'a>(op: Arith, lhs: &'a Array, rhs: &'a Array) -> (task: OperatorTask<'a, ()>)
    ensures
        task.plan() == (OperatorPlan::<()>::Arrays { op, lhs: lhs.raw(), rhs: rhs.raw() }),
        task.replies() == Seq::<Reply<()>>::empty(),
{
    OperatorTask::new(OperatorPlan::Arrays { op, lhs: lhs.as_raw(), rhs: rhs.as_raw() })
}

/// `-&operand`
pub fn neg<'a>(operand: &'a Array) -> (task: OperatorTask<'a, ()>)
    ensures
        task.plan() == (OperatorPlan::<()>::Negate { operand: operand.raw() }),
        task.replies() == Seq::<Reply<()>>::empty(),
{
    OperatorTask::new(OperatorPlan::Negate { operand: operand.as_raw() })
}

/// `&lhs op value`, where `dtype` is the element type that `T` stands for.
pub fn scalar_rhs_op<'a, T: Copy>(op: Arith, lhs: &'a Array, value: T, dtype: Dtype) -> (task:
    OperatorTask<'a, T>)
    ensures
        task.plan() == (OperatorPlan::ScalarRight { op, lhs: lhs.raw(), value, dtype }),
        task.replies() == Seq::<Reply<T>>::empty(),
{
    OperatorTask::new(OperatorPlan::ScalarRight { op, lhs: lhs.as_raw(), value, dtype })
}

/// `value op &rhs`, where `dtype` is the element type that `T` stands for.
pub fn scalar_lhs_op<'a, T: Copy>(op: Arith, value: T, dtype: Dtype, rhs: &'a Array) -> (task:
    OperatorTask<'a, T>)
    ensures
        task.plan() == (OperatorPlan::ScalarLeft { op, value, dtype, rhs: rhs.raw() }),
        task.replies() == Seq::<Reply<T>>::empty(),
{
    OperatorTask::new(OperatorPlan::ScalarLeft { op, value, dtype, rhs: rhs.as_raw() })
}

/// `target op= &rhs`. The result takes the place of `target`, whose handle the task frees if the
/// operation succeeds. What the task comes to is for [`rebind`].
pub fn assign_op<'a>(op: Arith, target: &'a mut Array, rhs: &'a Array) -> (task: OperatorTask<
    'a,
    (),
>)
    ensures
        *final(target) == *old(target),
        task.plan() == (OperatorPlan::<()>::Assign {
            op,
            target: old(target).raw(),
            rhs: rhs.raw(),
        }),
        task.replies() == Seq::<Reply<()>>::empty(),
{
    OperatorTask::new(OperatorPlan::Assign { op, target: target.as_raw(), rhs: rhs.as_raw() })
}

/// `target op= value`, where `dtype` is the element type that `T` stands for. The result takes the
/// place of `target`, as with [`assign_op`].
pub fn assign_scalar_op<'a, T: Copy>(
    op: Arith,
    target: &'a mut Array,
    value: T,
    dtype: Dtype,
) -> (task: OperatorTask<'a, T>)
    ensures
        *final(target) == *old(target),
        task.plan() == (OperatorPlan::AssignScalar {
            op,
            target: old(target).raw(),
            value,
            dtype,
        }),
        task.replies() == Seq::<Reply<T>>::empty(),
{
    OperatorTask::new(OperatorPlan::AssignScalar { op, target: target.as_raw(), value, dtype })
}

/// Ends an assignment: the result takes the place of `target`, whose handle the task has freed. If
/// the operation failed, `target` stays as it is, and the error is handed on.
pub fn rebind(target: &mut Array, output: Result<Array, OperatorError>) -> (result: Result<
    (),
    OperatorError,
>)
    ensures
        match output {
            Ok(array) => result is Ok && final(target).raw() == array.raw(),
            Err(failure) => {
                &&& result == Err::<(), OperatorError>(failure)
                &&& *final(target) == *old(target)
            },
        },
{
    match output {
        Ok(array) => {
            *target = array;
            Ok(())
        },
        Err(failure) => Err(failure),
    }
}

/// An operator on arrays does what the method behind it does on the current default stream: the
/// stream is looked up, the method's own calls follow, and the stream is freed.
pub proof fn operators_are_methods_on_the_default_stream<'a, T: Copy>(
    op: Arith,
    lhs: RawArray,
    rhs: RawArray,
    replies: Seq<Reply<T>>,
)
    ensures
        ({
            let stream = stream_given(StreamPlan::Default, replies);
            let method = OpPlan {
                op: Op::Binary { op: op.operation(), a: lhs, b: rhs },
                stream,
            };
            operator_calls::<'a>(OperatorPlan::Arrays { op, lhs, rhs }, replies) == stream_calls(
                StreamPlan::Default,
                replies,
            ) + op_calls(method, after(replies, 6)) + seq![Call::FreeStream { stream }]
        }),
{
    let stream = stream_given(StreamPlan::Default, replies);
    let method = OpPlan { op: Op::Binary { op: op.operation(), a: lhs, b: rhs }, stream };
    assert(operator_calls::<'a>(OperatorPlan::Arrays { op, lhs, rhs }, replies) =~= stream_calls(
        StreamPlan::Default,
        replies,
    ) + op_calls(method, after(replies, 6)) + seq![Call::FreeStream { stream }]);
}

/// Negation does what the method behind it does on the current default stream.
pub proof fn negation_is_the_method_on_the_default_stream<'a, T: Copy>(
    operand: RawArray,
    replies: Seq<Reply<T>>,
)
    ensures
        ({
            let stream = stream_given(StreamPlan::Default, replies);
            let method = OpPlan { op: Op::Unary { op: UnaryOp::Negative, a: operand }, stream };
            operator_calls::<'a>(OperatorPlan::Negate { operand }, replies) == stream_calls(
                StreamPlan::Default,
                replies,
            ) + op_calls(method, after(replies, 6)) + seq![Call::FreeStream { stream }]
        }),
{
    let stream = stream_given(StreamPlan::Default, replies);
    let method = OpPlan { op: Op::Unary { op: UnaryOp::Negative, a: operand }, stream };
    assert(operator_calls::<'a>(OperatorPlan::Negate { operand }, replies) =~= stream_calls(
        StreamPlan::Default,
        replies,
    ) + op_calls(method, after(replies, 6)) + seq![Call::FreeStream { stream }]);
}

/// A plain value on the right of an operator stands for the array that is built from it: the
/// operator on arrays runs between building that array and freeing it.
pub proof fn a_value_on_the_right_stands_for_its_array<'a, T: Copy>(
    op: Arith,
    lhs: RawArray,
    value: T,
    dtype: Dtype,
    replies: Seq<Reply<T>>,
)
    ensures
        ({
            let built = replies[1]->Array_0;
            operator_calls::<'a>(OperatorPlan::ScalarRight { op, lhs, value, dtype }, replies)
                == build_calls(BuildPlan::Scalar { value, dtype }) + operator_calls(
                OperatorPlan::Arrays { op, lhs, rhs: built },
                after(replies, 2),
            ) + seq![Call::FreeArray { array: built }]
        }),
{
}

/// A plain value on the left of an operator stands for the array that is built from it: the
/// operator on arrays runs between building that array and freeing it.
pub proof fn a_value_on_the_left_stands_for_its_array<'a, T: Copy>(
    op: Arith,
    value: T,
    dtype: Dtype,
    rhs: RawArray,
    replies: Seq<Reply<T>>,
)
    ensures
        ({
            let built = replies[1]->Array_0;
            operator_calls::<'a>(OperatorPlan::ScalarLeft { op, value, dtype, rhs }, replies)
                == build_calls(BuildPlan::Scalar { value, dtype }) + operator_calls(
                OperatorPlan::Arrays { op, lhs: built, rhs },
                after(replies, 2),
            ) + seq![Call::FreeArray { array: built }]
        }),
{
}

/// An assigning operator computes what the operator computes, and frees the handle of its left
/// operand right after a successful operation. A failed one leaves the left operand alone.
pub proof fn assignment_computes_the_operator<'a, T: Copy>(
    op: Arith,
    target: RawArray,
    rhs: RawArray,
    replies: Seq<Reply<T>>,
    output: Result<Array, OperatorError>,
)
    ensures
        ({
            let plain = OperatorPlan::Arrays { op, lhs: target, rhs };
            let assign = OperatorPlan::Assign { op, target, rhs };
            let calls = operator_calls::<'a>(plain, replies);
            &&& operator_gives(assign, replies, output) == operator_gives(plain, replies, output)
            &&& operator_calls(assign, replies) == if failed(replies[8]) {
                calls
            } else {
                calls.insert(calls.len() - 1, Call::FreeArray { array: target })
            }
        }),
{
    let plain = OperatorPlan::Arrays { op, lhs: target, rhs };
    let assign = OperatorPlan::Assign { op, target, rhs };
    let calls = operator_calls::<'a>(plain, replies);
    if failed(replies[8]) {
        assert(operator_calls(assign, replies) =~= calls);
    } else {
        assert(operator_calls(assign, replies) =~= calls.insert(
            calls.len() - 1,
            Call::FreeArray { array: target },
        ));
    }
}

/// An assigning operator with a plain value is the assigning operator with the array that is built
/// from it, between building that array and freeing it.
pub proof fn an_assigned_value_stands_for_its_array<'a, T: Copy>(
    op: Arith,
    target: RawArray,
    value: T,
    dtype: Dtype,
    replies: Seq<Reply<T>>,
)
    ensures
        ({
            let built = replies[1]->Array_0;
            operator_calls::<'a>(OperatorPlan::AssignScalar { op, target, value, dtype }, replies)
                == build_calls(BuildPlan::Scalar { value, dtype }) + operator_calls(
                OperatorPlan::Assign { op, target, rhs: built },
                after(replies, 2),
            ) + seq![Call::FreeArray { array: built }]
        }),
{
}

} // verus!
