//! What holds of every run of the interpreter.

use crate::error::ConstantErrorView;
use crate::interpreter::semantics::{double_name, single_name, ActionView, InterpreterView};
use crate::interpreter::task::TaskView;
use crate::lexer::LiteralView;
use crate::parser::{DoubleOpType, SingleOpType, StatementView, ValueView};
use vstd::prelude::*;

verus! {

/// The task of pushing a constant.
pub open spec fn push_task(value: LiteralView) -> TaskView {
    TaskView::Run(StatementView::Push(ValueView::Literal(value)))
}

/// The task of an operation on the top of the stack.
pub open spec fn single_task(op: SingleOpType) -> TaskView {
    TaskView::Run(StatementView::SingleOperation(op))
}

/// The task of an operation on the two values on top of the stack.
pub open spec fn double_task(op: DoubleOpType) -> TaskView {
    TaskView::Run(StatementView::DoubleOperation(op))
}

/// Pushing a value and duplicating it takes two steps that ask nothing of
/// the host, and leaves the value twice on top of what the stack held:
/// taking the top off twice gives the value both times. Nothing else
/// changes.
pub proof fn law_push_then_duplicate(
    s: InterpreterView,
    value: LiteralView,
    rest: Seq<TaskView>,
)
    requires
        s.pending == seq![push_task(value), single_task(SingleOpType::Dup)] + rest,
    ensures
        s.step().1 == Ok::<ActionView, ConstantErrorView>(ActionView::Continue),
        s.step().0.step() == (
            InterpreterView { stack: s.stack.push(value).push(value), pending: rest, ..s },
            Ok::<ActionView, ConstantErrorView>(ActionView::Continue),
        ),
        s.step().0.step().0.stack.last() == value,
        s.step().0.step().0.stack.drop_last().last() == value,
        s.step().0.step().0.stack.drop_last().drop_last() == s.stack,
{
    let pushed = s.step().0;
    let doubled = pushed.step().0;
    assert(doubled.pending =~= rest);
    assert(doubled.stack =~= s.stack.push(value).push(value));
}

/// Duplicating puts a second copy of the top on the stack, whatever the
/// stack holds below it.
pub proof fn law_duplicate(s: InterpreterView)
    requires
        s.stack.len() >= 1,
    ensures
        s.single(SingleOpType::Dup) == s.with_stack(s.stack.push(s.stack.last())).proceed(),
{
    assert(s.stack.drop_last().push(s.stack.last()) =~= s.stack);
}

/// Swapping twice gives back the stack as it was.
pub proof fn law_swap_twice(s: InterpreterView)
    requires
        s.stack.len() >= 2,
    ensures
        s.double(DoubleOpType::Swap).1 == Ok::<ActionView, ConstantErrorView>(ActionView::Continue),
        s.double(DoubleOpType::Swap).0.double(DoubleOpType::Swap) == s.proceed(),
{
    let once = s.double(DoubleOpType::Swap).0;
    let twice = once.double(DoubleOpType::Swap).0;
    assert(twice.stack =~= s.stack);
}

/// Swapping exchanges the two values on top of the stack and touches nothing
/// below them.
pub proof fn law_swap(s: InterpreterView)
    requires
        s.stack.len() >= 2,
    ensures
        ({
            let swapped = s.double(DoubleOpType::Swap).0.stack;
            let n = s.stack.len() as int;
            &&& swapped.len() == n
            &&& swapped[n - 1] == s.stack[n - 2]
            &&& swapped[n - 2] == s.stack[n - 1]
            &&& forall|i: int| 0 <= i < n - 2 ==> swapped[i] == s.stack[i]
        }),
{
}

/// Binding the top of the stack to a name and pushing the name puts the very
/// same value back: the stack is as before, and the name is bound to its
/// top.
pub proof fn law_bind_then_push(s: InterpreterView, name: Seq<char>)
    requires
        s.stack.len() >= 1,
    ensures
        s.bind(name).1 == Ok::<ActionView, ConstantErrorView>(ActionView::Continue),
        s.bind(name).0.idents[name] == s.stack.last(),
        s.bind(name).0.push(ValueView::Ident(name)).1 == Ok::<ActionView, ConstantErrorView>(
            ActionView::Continue,
        ),
        s.bind(name).0.push(ValueView::Ident(name)).0.stack == s.stack,
{
}

/// Once a name is bound to a value it names no procedure, whatever it named
/// before: calling it fails, and the error names it.
pub proof fn law_bind_hides_procedure(s: InterpreterView, name: Seq<char>)
    requires
        s.stack.len() >= 1,
    ensures
        !s.bind(name).0.procs.contains_key(name),
        s.bind(name).0.call(name).1 == Err::<ActionView, ConstantErrorView>(
            ConstantErrorView::ProcDoesNotExist(name),
        ),
{
}

/// Once a name is a procedure it is bound to no value, whatever it was bound
/// to before: pushing it fails, and the error names it.
pub proof fn law_define_hides_binding(s: InterpreterView, name: Seq<char>, body: Seq<StatementView>)
    ensures
        !s.define(name, body).0.idents.contains_key(name),
        s.define(name, body).0.push(ValueView::Ident(name)).1 == Err::<
            ActionView,
            ConstantErrorView,
        >(ConstantErrorView::IdentDoesNotExist(name)),
{
}

/// An operation on the top of the stack fails on an empty stack: the error
/// names the operation and the one value that it takes, the stack stays
/// empty, and what was pending is given up.
pub proof fn law_single_underflow(s: InterpreterView, op: SingleOpType)
    requires
        s.stack.len() < 1,
    ensures
        s.single(op) == (
            InterpreterView { pending: Seq::empty(), ..s },
            Err::<ActionView, ConstantErrorView>(
                ConstantErrorView::InvalidStackAmount(single_name(op), 1),
            ),
        ),
{
}

/// An operation on two values fails on a stack of fewer than two: the error
/// names the operation and the two values that it takes, the stack is as it
/// was, and what was pending is given up.
pub proof fn law_double_underflow(s: InterpreterView, op: DoubleOpType)
    requires
        s.stack.len() < 2,
    ensures
        s.double(op) == (
            InterpreterView { pending: Seq::empty(), ..s },
            Err::<ActionView, ConstantErrorView>(
                ConstantErrorView::InvalidStackAmount(double_name(op), 2),
            ),
        ),
{
}

/// Binding fails on an empty stack, and binds nothing.
pub proof fn law_bind_underflow(s: InterpreterView, name: Seq<char>)
    requires
        s.stack.len() < 1,
    ensures
        s.bind(name) == (
            InterpreterView { pending: Seq::empty(), ..s },
            Err::<ActionView, ConstantErrorView>(
                ConstantErrorView::InvalidStackAmount("Binding"@, 1),
            ),
        ),
{
}

/// An operation on two values that fails, for whatever reason, leaves the
/// stack as it was.
pub proof fn law_double_failure_keeps_stack(s: InterpreterView, op: DoubleOpType)
    requires
        s.double(op).1 is Err,
    ensures
        s.double(op).0.stack == s.stack,
{
}

/// No step makes a name both a bound value and a procedure.
pub proof fn law_step_keeps_names_apart(s: InterpreterView)
    requires
        s.wf(),
    ensures
        s.step().0.wf(),
{
    if s.pending.len() > 0 {
        let rest = InterpreterView { pending: s.pending.drop_first(), ..s };
        match s.pending[0] {
            TaskView::Run(StatementView::Bind(name)) => {
                let after = rest.bind(name).0;
                assert forall|other: Seq<char>|
                    !(#[trigger] after.idents.contains_key(other) && after.procs.contains_key(
                        other,
                    )) by {}
            },
            TaskView::Run(StatementView::Procedure(name, body)) => {
                let after = rest.define(name, body).0;
                assert forall|other: Seq<char>|
                    !(#[trigger] after.idents.contains_key(other) && after.procs.contains_key(
                        other,
                    )) by {}
            },
            _ => {},
        }
    }
}

/// No run of steps makes a name both a bound value and a procedure.
pub proof fn law_advance_keeps_names_apart(s: InterpreterView, budget: nat)
    requires
        s.wf(),
    ensures
        s.advance(budget).0.wf(),
    decreases budget,
{
    if budget > 0 {
        law_step_keeps_names_apart(s);
        if s.step().1 == Ok::<ActionView, ConstantErrorView>(ActionView::Continue) {
            law_advance_keeps_names_apart(s.step().0, (budget - 1) as nat);
        }
    }
}

} // verus!
