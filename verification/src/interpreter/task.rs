//! The work that an interpreter still has before it, one task per step.

use crate::parser::ast::{block_view, branches_view};
use crate::parser::{Statement, StatementView};
use vstd::prelude::*;

verus! {

/// One unit of pending work.
#[derive(Debug, PartialEq)]
pub enum Task {
    /// Run this statement.
    Run(Statement),
    /// The conditions of an `if` or `elif` have run: take their verdict from
    /// the stack and go on with the statements of this branch, with the next
    /// `elif` of those given, or with the statements of `else`.
    Branch(Vec<Statement>, Vec<(Vec<Statement>, Vec<Statement>)>, Vec<Statement>),
    /// The conditions of a `while` have run: take their verdict from the
    /// stack and either run the body and then the whole loop again, or leave
    /// it. Holds the conditions and the body.
    Loop(Vec<Statement>, Vec<Statement>),
}

/// The mathematical value of a [`Task`].
pub enum TaskView {
    Run(StatementView),
    Branch(
        Seq<StatementView>,
        Seq<(Seq<StatementView>, Seq<StatementView>)>,
        Seq<StatementView>,
    ),
    Loop(Seq<StatementView>, Seq<StatementView>),
}

impl View for Task {
    type V = TaskView;

    open spec fn view(&self) -> TaskView {
        match self {
            Task::Run(statement) => TaskView::Run(statement@),
            Task::Branch(statements, elifs, otherwise) => TaskView::Branch(
                block_view(statements@),
                branches_view(elifs@),
                block_view(otherwise@),
            ),
            Task::Loop(conditions, statements) => TaskView::Loop(
                block_view(conditions@),
                block_view(statements@),
            ),
        }
    }
}

/// The tasks of running the statements of a block, first statement first.
pub open spec fn run_all(block: Seq<StatementView>) -> Seq<TaskView> {
    Seq::new(block.len(), |i: int| TaskView::Run(block[i]))
}

/// The pending work that a stack of tasks stands for, next task first: the
/// stack is taken from its top, which is its last element.
pub open spec fn agenda(tasks: Seq<Task>) -> Seq<TaskView> {
    Seq::new(tasks.len(), |i: int| tasks[tasks.len() - 1 - i]@)
}

/// Puts the statements of a block before everything that is pending, so that
/// they run next, in their order.
pub fn schedule(pending: &mut Vec<Task>, block: Vec<Statement>)
    ensures
        agenda(final(pending)@) == run_all(block_view(block@)) + agenda(old(pending)@),
{
    let mut block = block;
    let ghost whole = block_view(block@);
    let ghost before = pending@;
    while block.len() > 0
        invariant
            block_view(block@) == whole.subrange(0, block.len() as int),
            block.len() <= whole.len(),
            agenda(pending@) == run_all(whole.subrange(block.len() as int, whole.len() as int))
                + agenda(before),
        decreases block.len(),
    {
        let ghost n = block.len() as int;
        let ghost had = pending@;
        let ghost prior = block@;
        let statement = block.pop().unwrap();
        assert(statement@ == whole[n - 1]) by {
            assert(block_view(prior)[n - 1] == statement@);
        }
        assert(block_view(block@) =~= whole.subrange(0, n - 1)) by {
            assert forall|i: int| 0 <= i < n - 1 implies block_view(block@)[i] == whole[i] by {
                assert(block_view(prior)[i] == whole[i]);
            }
        }
        pending.push(Task::Run(statement));
        assert(agenda(pending@) =~= run_all(whole.subrange(n - 1, whole.len() as int)) + agenda(
            before,
        )) by {
            let target = run_all(whole.subrange(n - 1, whole.len() as int)) + agenda(before);
            let earlier = run_all(whole.subrange(n, whole.len() as int)) + agenda(before);
            assert(earlier.len() == had.len());
            assert forall|i: int| 0 <= i < target.len() implies agenda(pending@)[i] == target[i] by {
                if i > 0 {
                    assert(earlier[i - 1] == target[i]);
                }
            }
        }
    }
}

} // verus!
