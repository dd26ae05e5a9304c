//! What one step of the interpreter does, over mathematical values.

use crate::error::ConstantErrorView;
use crate::interpreter::operators::apply_spec;
use crate::interpreter::task::{run_all, TaskView};
use crate::lexer::{Arithmetic, LiteralView, OutcomeView};
use crate::parser::{DoubleOpType, SingleOpType, StatementView, ValueView};
use vstd::prelude::*;

verus! {

/// The mathematical value of what a step asks of the host.
pub enum ActionView {
    Done,
    Continue,
    Print(Seq<char>),
    PrintNumber(u32),
    Arithmetic(Arithmetic, u32, u32),
}

/// The mathematical value of an interpreter.
pub struct InterpreterView {
    /// The operand stack, its top last.
    pub stack: Seq<LiteralView>,
    /// The work still to do, the next task first.
    pub pending: Seq<TaskView>,
    /// The value bound to each bound name.
    pub idents: Map<Seq<char>, LiteralView>,
    /// The statements of each procedure.
    pub procs: Map<Seq<char>, Seq<StatementView>>,
}

/// The name under which a one-operand operation reports a stack that is too
/// short.
pub open spec fn single_name(op: SingleOpType) -> Seq<char> {
    match op {
        SingleOpType::Print => "Printing"@,
        SingleOpType::Dup => "Duping"@,
        SingleOpType::Drop => "Dropping"@,
    }
}

/// The name under which a two-operand operation reports a stack that is too
/// short.
pub open spec fn double_name(op: DoubleOpType) -> Seq<char> {
    match op {
        DoubleOpType::Add => "Addition"@,
        DoubleOpType::Sub => "Subtraction"@,
        DoubleOpType::Mul => "Multiplication"@,
        DoubleOpType::Div => "Division"@,
        DoubleOpType::Swap => "Swapping"@,
        DoubleOpType::Mod => "Modulo"@,
        _ => "Comparison"@,
    }
}

/// How a value is printed: a text as it is, a truth value as `true` or
/// `false`, and a number by the host.
pub open spec fn shown(value: LiteralView) -> ActionView {
    match value {
        LiteralView::Number(bits) => ActionView::PrintNumber(bits),
        LiteralView::String(s) => ActionView::Print(s),
        LiteralView::Bool(b) => ActionView::Print(
            if b {
                "true"@
            } else {
                "false"@
            },
        ),
    }
}

/// The complaint of an `if` whose conditions left no truth value.
pub open spec fn if_complaint() -> ConstantErrorView {
    ConstantErrorView::InvalidOperation("If statement expects boolean value on top of stack"@)
}

/// The complaint of a `while` whose conditions left no truth value.
pub open spec fn while_complaint() -> ConstantErrorView {
    ConstantErrorView::InvalidOperation("While statement expects boolean value on top of stack"@)
}

impl InterpreterView {
    /// No name is bound to a value and names a procedure at once.
    pub open spec fn wf(self) -> bool {
        forall|name: Seq<char>|
            !(#[trigger] self.idents.contains_key(name) && self.procs.contains_key(name))
    }

    /// The step went well and asks nothing of the host.
    pub open spec fn proceed(self) -> (InterpreterView, Result<ActionView, ConstantErrorView>) {
        (self, Ok(ActionView::Continue))
    }

    /// The step failed: the error is reported and the rest of the program
    /// is given up.
    pub open spec fn fail(self, error: ConstantErrorView) -> (
        InterpreterView,
        Result<ActionView, ConstantErrorView>,
    ) {
        (InterpreterView { pending: Seq::empty(), ..self }, Err(error))
    }

    /// The same interpreter with another stack.
    pub open spec fn with_stack(self, stack: Seq<LiteralView>) -> InterpreterView {
        InterpreterView { stack, ..self }
    }

    /// The same interpreter with the statements of a block to run first.
    pub open spec fn with_block(self, block: Seq<StatementView>) -> InterpreterView {
        InterpreterView { pending: run_all(block) + self.pending, ..self }
    }

    /// The same interpreter with one more task to do first.
    pub open spec fn with_task(self, task: TaskView) -> InterpreterView {
        InterpreterView { pending: seq![task] + self.pending, ..self }
    }

    /// Pushing a constant, or the value bound to a name.
    pub open spec fn push(self, value: ValueView) -> (
        InterpreterView,
        Result<ActionView, ConstantErrorView>,
    ) {
        match value {
            ValueView::Literal(literal) => self.with_stack(self.stack.push(literal)).proceed(),
            ValueView::Ident(name) => if self.idents.contains_key(name) {
                self.with_stack(self.stack.push(self.idents[name])).proceed()
            } else {
                self.fail(ConstantErrorView::IdentDoesNotExist(name))
            },
        }
    }

    /// An operation on the top of the stack. On an empty stack it fails and
    /// leaves the stack empty.
    pub open spec fn single(self, op: SingleOpType) -> (
        InterpreterView,
        Result<ActionView, ConstantErrorView>,
    ) {
        if self.stack.len() < 1 {
            self.fail(ConstantErrorView::InvalidStackAmount(single_name(op), 1))
        } else {
            let top = self.stack.last();
            let below = self.stack.drop_last();
            match op {
                SingleOpType::Print => (self.with_stack(below), Ok(shown(top))),
                SingleOpType::Dup => self.with_stack(below.push(top).push(top)).proceed(),
                SingleOpType::Drop => self.with_stack(below).proceed(),
            }
        }
    }

    /// An operation on the two values on top of the stack, the upper one
    /// being its right operand. With fewer than two values, or with operands
    /// that the operation refuses, it fails and the stack is as it was. Where
    /// the result is left to the host, both operands are gone from the stack
    /// and the host puts the result there.
    pub open spec fn double(self, op: DoubleOpType) -> (
        InterpreterView,
        Result<ActionView, ConstantErrorView>,
    ) {
        if self.stack.len() < 2 {
            self.fail(ConstantErrorView::InvalidStackAmount(double_name(op), 2))
        } else {
            let right = self.stack[self.stack.len() - 1];
            let left = self.stack[self.stack.len() - 2];
            let below = self.stack.subrange(0, self.stack.len() - 2);
            if op == DoubleOpType::Swap {
                self.with_stack(below.push(right).push(left)).proceed()
            } else {
                match apply_spec(op, left, right) {
                    Ok(OutcomeView::Value(value)) => self.with_stack(below.push(value)).proceed(),
                    Ok(OutcomeView::Arithmetic(operator, a, b)) => (
                        self.with_stack(below),
                        Ok(ActionView::Arithmetic(operator, a, b)),
                    ),
                    Err(error) => self.fail(error),
                }
            }
        }
    }

    /// Binding the top of the stack to a name, which from then on names no
    /// procedure.
    pub open spec fn bind(self, name: Seq<char>) -> (
        InterpreterView,
        Result<ActionView, ConstantErrorView>,
    ) {
        if self.stack.len() < 1 {
            self.fail(ConstantErrorView::InvalidStackAmount("Binding"@, 1))
        } else {
            InterpreterView {
                stack: self.stack.drop_last(),
                idents: self.idents.insert(name, self.stack.last()),
                procs: self.procs.remove(name),
                ..self
            }.proceed()
        }
    }

    /// Making a name a procedure, which from then on is bound to no value.
    pub open spec fn define(self, name: Seq<char>, body: Seq<StatementView>) -> (
        InterpreterView,
        Result<ActionView, ConstantErrorView>,
    ) {
        InterpreterView {
            idents: self.idents.remove(name),
            procs: self.procs.insert(name, body),
            ..self
        }.proceed()
    }

    /// Calling a procedure: its statements run next, on the same stack and
    /// with the same names.
    pub open spec fn call(self, name: Seq<char>) -> (
        InterpreterView,
        Result<ActionView, ConstantErrorView>,
    ) {
        if self.procs.contains_key(name) {
            self.with_block(self.procs[name]).proceed()
        } else {
            self.fail(ConstantErrorView::ProcDoesNotExist(name))
        }
    }

    /// Running one statement.
    pub open spec fn run(self, statement: StatementView) -> (
        InterpreterView,
        Result<ActionView, ConstantErrorView>,
    ) {
        match statement {
            StatementView::Push(value) => self.push(value),
            StatementView::SingleOperation(op) => self.single(op),
            StatementView::DoubleOperation(op) => self.double(op),
            StatementView::Bind(name) => self.bind(name),
            StatementView::If(conditions, statements, elifs, otherwise) => self.with_task(
                TaskView::Branch(statements, elifs, otherwise),
            ).with_block(conditions).proceed(),
            StatementView::While(conditions, statements) => self.with_task(
                TaskView::Loop(conditions, statements),
            ).with_block(conditions).proceed(),
            StatementView::Procedure(name, body) => self.define(name, body),
            StatementView::Call(name) => self.call(name),
            StatementView::Empty => self.proceed(),
        }
    }

    /// Choosing the branch of an `if` by the truth value on top of the
    /// stack, which is taken off. Where the top is no truth value it is
    /// taken off all the same, and the step fails.
    pub open spec fn branch(
        self,
        statements: Seq<StatementView>,
        elifs: Seq<(Seq<StatementView>, Seq<StatementView>)>,
        otherwise: Seq<StatementView>,
    ) -> (InterpreterView, Result<ActionView, ConstantErrorView>) {
        if self.stack.len() < 1 {
            self.fail(if_complaint())
        } else {
            let below = self.with_stack(self.stack.drop_last());
            match self.stack.last() {
                LiteralView::Bool(verdict) => if verdict {
                    below.with_block(statements).proceed()
                } else if elifs.len() > 0 {
                    below.with_task(
                        TaskView::Branch(elifs[0].1, elifs.drop_first(), otherwise),
                    ).with_block(elifs[0].0).proceed()
                } else {
                    below.with_block(otherwise).proceed()
                },
                _ => below.fail(if_complaint()),
            }
        }
    }

    /// Going round a `while`, or leaving it, by the truth value on top of
    /// the stack, which is taken off. Where the top is no truth value it is
    /// taken off all the same, and the step fails.
    pub open spec fn iterate(self, conditions: Seq<StatementView>, statements: Seq<StatementView>) -> (
        InterpreterView,
        Result<ActionView, ConstantErrorView>,
    ) {
        if self.stack.len() < 1 {
            self.fail(while_complaint())
        } else {
            let below = self.with_stack(self.stack.drop_last());
            match self.stack.last() {
                LiteralView::Bool(verdict) => if verdict {
                    below.with_task(
                        TaskView::Run(StatementView::While(conditions, statements)),
                    ).with_block(statements).proceed()
                } else {
                    below.proceed()
                },
                _ => below.fail(while_complaint()),
            }
        }
    }

    /// One step: the next task is taken from the pending work and done.
    /// With no work pending, nothing changes.
    pub open spec fn step(self) -> (InterpreterView, Result<ActionView, ConstantErrorView>) {
        if self.pending.len() == 0 {
            (self, Ok(ActionView::Done))
        } else {
            let rest = InterpreterView { pending: self.pending.drop_first(), ..self };
            match self.pending[0] {
                TaskView::Run(statement) => rest.run(statement),
                TaskView::Branch(statements, elifs, otherwise) => rest.branch(
                    statements,
                    elifs,
                    otherwise,
                ),
                TaskView::Loop(conditions, statements) => rest.iterate(conditions, statements),
            }
        }
    }

    /// Steps taken one after the other, at most `budget` of them, until one
    /// fails or asks something of the host. Where the budget ends first the
    /// answer is `Continue`.
    pub open spec fn advance(self, budget: nat) -> (
        InterpreterView,
        Result<ActionView, ConstantErrorView>,
    )
        decreases budget,
    {
        if budget == 0 {
            self.proceed()
        } else {
            let (next, answer) = self.step();
            if answer == Ok::<ActionView, ConstantErrorView>(ActionView::Continue) {
                next.advance((budget - 1) as nat)
            } else {
                (next, answer)
            }
        }
    }
}

} // verus!
