//! The interpreter: a machine that runs a statement tree one step at a time.
//!
//! A step takes the next task from the pending work and does it. What a step
//! cannot do itself it hands to the host as an [`Action`]: writing a line of
//! output, and the arithmetic on two numbers, whose result the host puts on
//! the stack with [`Interpreter::resume`] before it goes on. A `while` that
//! never ends is a sequence of steps that never ends; each step does.

pub mod laws;
pub mod operators;
pub mod semantics;
pub mod task;

use crate::error::{ConstantError, ConstantErrorView};
use crate::lexer::{Arithmetic, Literal, LiteralView, Outcome};
use crate::parser::ast::{block_view, branches_view, clone_block};
use crate::parser::{DoubleOpType, SingleOpType, Statement, StatementView, Value};
use operators::apply;
pub use semantics::{ActionView, InterpreterView};
use semantics::{double_name, shown, single_name};
use task::{agenda, run_all, schedule};
pub use task::{Task, TaskView};
use vstd::hash_map::StringHashMap;
use vstd::prelude::*;

verus! {

/// What a step leaves for the host to do.
#[derive(Debug, PartialEq)]
pub enum Action {
    /// Nothing: no work was pending, and no step was taken.
    Done,
    /// Nothing: go on with the next step.
    Continue,
    /// Write this text and end the line.
    Print(String),
    /// Write this number and end the line.
    PrintNumber(u32),
    /// Work out what the operator gives on these two numbers, the left one
    /// first, and put the result on the stack.
    Arithmetic(Arithmetic, u32, u32),
}

impl View for Action {
    type V = ActionView;

    open spec fn view(&self) -> ActionView {
        match self {
            Action::Done => ActionView::Done,
            Action::Continue => ActionView::Continue,
            Action::Print(line) => ActionView::Print(line@),
            Action::PrintNumber(bits) => ActionView::PrintNumber(*bits),
            Action::Arithmetic(op, left, right) => ActionView::Arithmetic(*op, *left, *right),
        }
    }
}

/// The value of what a step returned.
pub open spec fn answer_view(r: Result<Action, ConstantError>) -> Result<
    ActionView,
    ConstantErrorView,
> {
    match r {
        Ok(action) => Ok(action@),
        Err(error) => Err(error@),
    }
}

/// The values on a stack, in order.
pub open spec fn stack_view(stack: Seq<Literal>) -> Seq<LiteralView> {
    stack.map_values(|value: Literal| value@)
}

/// The value bound to each name.
pub open spec fn idents_view(idents: Map<Seq<char>, Literal>) -> Map<Seq<char>, LiteralView> {
    idents.map_values(|value: Literal| value@)
}

/// The statements of each procedure.
pub open spec fn procs_view(procs: Map<Seq<char>, Vec<Statement>>) -> Map<
    Seq<char>,
    Seq<StatementView>,
> {
    procs.map_values(|body: Vec<Statement>| block_view(body@))
}

/// An operand stack, a table of bound names, a table of procedures, and the
/// work that is pending.
pub struct Interpreter {
    stack: Vec<Literal>,
    pending: Vec<Task>,
    idents: StringHashMap<Literal>,
    procs: StringHashMap<Vec<Statement>>,
}

impl View for Interpreter {
    type V = InterpreterView;

    closed spec fn view(&self) -> InterpreterView {
        InterpreterView {
            stack: stack_view(self.stack@),
            pending: agenda(self.pending@),
            idents: idents_view(self.idents@),
            procs: procs_view(self.procs@),
        }
    }
}

proof fn lemma_agenda_push(tasks: Seq<Task>, task: Task)
    ensures
        agenda(tasks.push(task)) == seq![task@] + agenda(tasks),
{
}

proof fn lemma_agenda_pop(tasks: Seq<Task>)
    requires
        tasks.len() > 0,
    ensures
        agenda(tasks.drop_last()) == agenda(tasks).drop_first(),
        agenda(tasks)[0] == tasks.last()@,
{
}

proof fn lemma_stack_push(stack: Seq<Literal>, value: Literal)
    ensures
        stack_view(stack.push(value)) == stack_view(stack).push(value@),
{
}

proof fn lemma_stack_pop(stack: Seq<Literal>)
    requires
        stack.len() > 0,
    ensures
        stack_view(stack.drop_last()) == stack_view(stack).drop_last(),
        stack_view(stack).last() == stack.last()@,
{
}

fn single_name_of(op: SingleOpType) -> (name: String)
    ensures
        name@ == single_name(op),
{
    match op {
        SingleOpType::Print => String::from_str("Printing"),
        SingleOpType::Dup => String::from_str("Duping"),
        SingleOpType::Drop => String::from_str("Dropping"),
    }
}

fn double_name_of(op: DoubleOpType) -> (name: String)
    ensures
        name@ == double_name(op),
{
    match op {
        DoubleOpType::Add => String::from_str("Addition"),
        DoubleOpType::Sub => String::from_str("Subtraction"),
        DoubleOpType::Mul => String::from_str("Multiplication"),
        DoubleOpType::Div => String::from_str("Division"),
        DoubleOpType::Swap => String::from_str("Swapping"),
        DoubleOpType::Mod => String::from_str("Modulo"),
        _ => String::from_str("Comparison"),
    }
}

/// What printing a value asks of the host: a text is written as it is, a
/// truth value as `true` or `false`, and a number as the host writes
/// numbers.
pub fn show(value: Literal) -> (action: Action)
    ensures
        action@ == shown(value@),
{
    match value {
        Literal::Number(bits) => Action::PrintNumber(bits),
        Literal::String(s) => Action::Print(s),
        Literal::Bool(b) => if b {
            Action::Print(String::from_str("true"))
        } else {
            Action::Print(String::from_str("false"))
        },
    }
}

impl Interpreter {
    /// An interpreter with an empty stack and no names, about to run the
    /// program.
    pub fn new(program: Vec<Statement>) -> (interpreter: Self)
        ensures
            interpreter@ == (InterpreterView {
                stack: Seq::empty(),
                pending: run_all(block_view(program@)),
                idents: Map::empty(),
                procs: Map::empty(),
            }),
            interpreter@.wf(),
    {
        let mut pending: Vec<Task> = Vec::new();
        schedule(&mut pending, program);
        let interpreter = Interpreter {
            stack: Vec::new(),
            pending,
            idents: StringHashMap::new(),
            procs: StringHashMap::new(),
        };
        proof {
            assert(interpreter@.stack =~= Seq::empty());
            assert(interpreter@.idents =~= Map::empty());
            assert(interpreter@.procs =~= Map::empty());
        }
        interpreter
    }

    /// Replaces the pending work by a program. The stack and the names stay.
    pub fn load(&mut self, program: Vec<Statement>)
        ensures
            final(self)@ == (InterpreterView {
                pending: run_all(block_view(program@)),
                ..old(self)@
            }),
    {
        self.pending.clear();
        schedule(&mut self.pending, program);
    }

    /// Puts a number on the stack: the host's answer to
    /// [`Action::Arithmetic`].
    pub fn resume(&mut self, number: u32)
        ensures
            final(self)@ == old(self)@.with_stack(old(self)@.stack.push(LiteralView::Number(number))),
    {
        proof {
            lemma_stack_push(self.stack@, Literal::Number(number));
        }
        self.stack.push(Literal::Number(number));
    }

    /// The operand stack, its top last.
    pub fn stack(&self) -> (stack: &Vec<Literal>)
        ensures
            stack_view(stack@) == self@.stack,
    {
        &self.stack
    }

    /// The value that a name is bound to, if it is bound.
    pub fn bound(&self, name: &str) -> (value: Option<&Literal>)
        ensures
            match value {
                Some(found) => self@.idents.contains_key(name@) && found@ == self@.idents[name@],
                None => !self@.idents.contains_key(name@),
            },
    {
        self.idents.get(name)
    }

    /// The statements of a procedure, if the name is one.
    pub fn procedure(&self, name: &str) -> (body: Option<&Vec<Statement>>)
        ensures
            match body {
                Some(found) => self@.procs.contains_key(name@) && block_view(found@)
                    == self@.procs[name@],
                None => !self@.procs.contains_key(name@),
            },
    {
        self.procs.get(name)
    }

    /// Whether no work is pending.
    pub fn is_done(&self) -> (done: bool)
        ensures
            done == (self@.pending.len() == 0),
    {
        self.pending.len() == 0
    }

    /// Gives up what is pending and reports the error.
    fn fail(&mut self, error: ConstantError) -> (r: Result<Action, ConstantError>)
        ensures
            (final(self)@, answer_view(r)) == old(self)@.fail(error@),
    {
        self.pending.clear();
        assert(agenda(self.pending@) =~= Seq::empty());
        Err(error)
    }

    fn push(&mut self, value: Value) -> (r: Result<Action, ConstantError>)
        ensures
            (final(self)@, answer_view(r)) == old(self)@.push(value@),
    {
        match value {
            Value::Literal(literal) => {
                proof {
                    lemma_stack_push(self.stack@, literal);
                }
                self.stack.push(literal);
                Ok(Action::Continue)
            },
            Value::Ident(name) => {
                let found = match self.idents.get(name.as_str()) {
                    Some(bound) => Some(bound.clone()),
                    None => None,
                };
                match found {
                    Some(copy) => {
                        proof {
                            lemma_stack_push(self.stack@, copy);
                        }
                        self.stack.push(copy);
                        Ok(Action::Continue)
                    },
                    None => self.fail(ConstantError::IdentDoesNotExist(name)),
                }
            },
        }
    }

    fn single(&mut self, op: SingleOpType) -> (r: Result<Action, ConstantError>)
        ensures
            (final(self)@, answer_view(r)) == old(self)@.single(op),
    {
        if self.stack.len() < 1 {
            return self.fail(ConstantError::InvalidStackAmount(single_name_of(op), 1));
        }
        proof {
            lemma_stack_pop(self.stack@);
        }
        let top = self.stack.pop().unwrap();
        match op {
            SingleOpType::Print => Ok(show(top)),
            SingleOpType::Dup => {
                let copy = top.clone();
                proof {
                    lemma_stack_push(self.stack@, copy);
                    lemma_stack_push(self.stack@.push(copy), top);
                }
                self.stack.push(copy);
                self.stack.push(top);
                Ok(Action::Continue)
            },
            SingleOpType::Drop => Ok(Action::Continue),
        }
    }

    fn double(&mut self, op: DoubleOpType) -> (r: Result<Action, ConstantError>)
        ensures
            (final(self)@, answer_view(r)) == old(self)@.double(op),
    {
        if self.stack.len() < 2 {
            return self.fail(ConstantError::InvalidStackAmount(double_name_of(op), 2));
        }
        let ghost before = self.stack@;
        proof {
            lemma_stack_pop(before);
            lemma_stack_pop(before.drop_last());
            assert(stack_view(before).drop_last().drop_last() =~= stack_view(before).subrange(
                0,
                before.len() - 2,
            ));
        }
        let right = self.stack.pop().unwrap();
        let left = self.stack.pop().unwrap();
        let ghost below = self.stack@;
        if op == DoubleOpType::Swap {
            proof {
                lemma_stack_push(below, right);
                lemma_stack_push(below.push(right), left);
            }
            self.stack.push(right);
            self.stack.push(left);
            return Ok(Action::Continue);
        }
        match apply(op, left.clone(), right.clone()) {
            Ok(Outcome::Value(value)) => {
                proof {
                    lemma_stack_push(below, value);
                }
                self.stack.push(value);
                Ok(Action::Continue)
            },
            Ok(Outcome::Arithmetic(operator, a, b)) => Ok(Action::Arithmetic(operator, a, b)),
            Err(error) => {
                self.stack.push(left);
                self.stack.push(right);
                assert(self.stack@ =~= before);
                self.fail(error)
            },
        }
    }

    fn bind(&mut self, name: String) -> (r: Result<Action, ConstantError>)
        ensures
            (final(self)@, answer_view(r)) == old(self)@.bind(name@),
    {
        if self.stack.len() < 1 {
            return self.fail(ConstantError::InvalidStackAmount(String::from_str("Binding"), 1));
        }
        proof {
            lemma_stack_pop(self.stack@);
        }
        let top = self.stack.pop().unwrap();
        let ghost idents = self.idents@;
        let ghost procs = self.procs@;
        self.procs.remove(name.as_str());
        assert(procs_view(self.procs@) =~= procs_view(procs).remove(name@));
        self.idents.insert(name, top);
        assert(idents_view(self.idents@) =~= idents_view(idents).insert(name@, top@));
        Ok(Action::Continue)
    }

    fn define(&mut self, name: String, body: Vec<Statement>) -> (r: Result<Action, ConstantError>)
        ensures
            (final(self)@, answer_view(r)) == old(self)@.define(name@, block_view(body@)),
    {
        let ghost idents = self.idents@;
        let ghost procs = self.procs@;
        self.idents.remove(name.as_str());
        assert(idents_view(self.idents@) =~= idents_view(idents).remove(name@));
        self.procs.insert(name, body);
        assert(procs_view(self.procs@) =~= procs_view(procs).insert(name@, block_view(body@)));
        Ok(Action::Continue)
    }

    fn call(&mut self, name: String) -> (r: Result<Action, ConstantError>)
        ensures
            (final(self)@, answer_view(r)) == old(self)@.call(name@),
    {
        let found = match self.procs.get(name.as_str()) {
            Some(body) => Some(clone_block(body)),
            None => None,
        };
        match found {
            Some(copy) => {
                schedule(&mut self.pending, copy);
                Ok(Action::Continue)
            },
            None => self.fail(ConstantError::ProcDoesNotExist(name)),
        }
    }

    fn run(&mut self, statement: Statement) -> (r: Result<Action, ConstantError>)
        ensures
            (final(self)@, answer_view(r)) == old(self)@.run(statement@),
    {
        match statement {
            Statement::Push(value) => self.push(value),
            Statement::SingleOperation(op) => self.single(op),
            Statement::DoubleOperation(op) => self.double(op),
            Statement::Bind(name) => self.bind(name),
            Statement::If(conditions, statements, elifs, otherwise) => {
                let task = Task::Branch(statements, elifs, otherwise);
                proof {
                    lemma_agenda_push(self.pending@, task);
                }
                self.pending.push(task);
                schedule(&mut self.pending, conditions);
                Ok(Action::Continue)
            },
            Statement::While(conditions, statements) => {
                let copy = clone_block(&conditions);
                let task = Task::Loop(conditions, statements);
                proof {
                    lemma_agenda_push(self.pending@, task);
                }
                self.pending.push(task);
                schedule(&mut self.pending, copy);
                Ok(Action::Continue)
            },
            Statement::Procedure(name, body) => self.define(name, body),
            Statement::Call(name) => self.call(name),
            Statement::Empty => Ok(Action::Continue),
        }
    }

    fn branch(
        &mut self,
        statements: Vec<Statement>,
        elifs: Vec<(Vec<Statement>, Vec<Statement>)>,
        otherwise: Vec<Statement>,
    ) -> (r: Result<Action, ConstantError>)
        ensures
            (final(self)@, answer_view(r)) == old(self)@.branch(
                block_view(statements@),
                branches_view(elifs@),
                block_view(otherwise@),
            ),
    {
        if self.stack.len() < 1 {
            return self.fail(
                ConstantError::InvalidOperation(
                    String::from_str("If statement expects boolean value on top of stack"),
                ),
            );
        }
        proof {
            lemma_stack_pop(self.stack@);
        }
        match self.stack.pop().unwrap() {
            Literal::Bool(verdict) => {
                if verdict {
                    schedule(&mut self.pending, statements);
                } else if elifs.len() > 0 {
                    let mut elifs = elifs;
                    let ghost all = elifs@;
                    let (conditions, then) = elifs.remove(0);
                    assert(branches_view(elifs@) =~= branches_view(all).drop_first());
                    let task = Task::Branch(then, elifs, otherwise);
                    proof {
                        lemma_agenda_push(self.pending@, task);
                    }
                    self.pending.push(task);
                    schedule(&mut self.pending, conditions);
                } else {
                    schedule(&mut self.pending, otherwise);
                }
                Ok(Action::Continue)
            },
            _ => self.fail(
                ConstantError::InvalidOperation(
                    String::from_str("If statement expects boolean value on top of stack"),
                ),
            ),
        }
    }

    fn iterate(&mut self, conditions: Vec<Statement>, statements: Vec<Statement>) -> (r: Result<
        Action,
        ConstantError,
    >)
        ensures
            (final(self)@, answer_view(r)) == old(self)@.iterate(
                block_view(conditions@),
                block_view(statements@),
            ),
    {
        if self.stack.len() < 1 {
            return self.fail(
                ConstantError::InvalidOperation(
                    String::from_str("While statement expects boolean value on top of stack"),
                ),
            );
        }
        proof {
            lemma_stack_pop(self.stack@);
        }
        match self.stack.pop().unwrap() {
            Literal::Bool(verdict) => {
                if verdict {
                    let copy = clone_block(&statements);
                    let task = Task::Run(Statement::While(conditions, statements));
                    proof {
                        lemma_agenda_push(self.pending@, task);
                    }
                    self.pending.push(task);
                    schedule(&mut self.pending, copy);
                }
                Ok(Action::Continue)
            },
            _ => self.fail(
                ConstantError::InvalidOperation(
                    String::from_str("While statement expects boolean value on top of stack"),
                ),
            ),
        }
    }

    /// Takes one step: does the next task of the pending work.
    ///
    /// An error ends the program: nothing is pending after it. The stack and
    /// the names stay as the failed step left them.
    pub fn step(&mut self) -> (r: Result<Action, ConstantError>)
        ensures
            (final(self)@, answer_view(r)) == old(self)@.step(),
            old(self)@.wf() ==> final(self)@.wf(),
    {
        proof {
            if self@.wf() {
                laws::law_step_keeps_names_apart(self@);
            }
        }
        if self.pending.len() == 0 {
            return Ok(Action::Done);
        }
        proof {
            lemma_agenda_pop(self.pending@);
        }
        match self.pending.pop().unwrap() {
            Task::Run(statement) => self.run(statement),
            Task::Branch(statements, elifs, otherwise) => self.branch(statements, elifs, otherwise),
            Task::Loop(conditions, statements) => self.iterate(conditions, statements),
        }
    }

    /// Takes steps, at most `budget` of them, until one fails or leaves
    /// something for the host to do. Where the budget ends first the answer
    /// is [`Action::Continue`].
    pub fn interpret(&mut self, budget: usize) -> (r: Result<Action, ConstantError>)
        ensures
            (final(self)@, answer_view(r)) == old(self)@.advance(budget as nat),
            old(self)@.wf() ==> final(self)@.wf(),
    {
        proof {
            if self@.wf() {
                laws::law_advance_keeps_names_apart(self@, budget as nat);
            }
        }
        let mut left: usize = budget;
        while left > 0
            invariant
                self@.advance(left as nat) == old(self)@.advance(budget as nat),
                old(self)@.wf() ==> old(self)@.advance(budget as nat).0.wf(),
            decreases left,
        {
            match self.step() {
                Ok(Action::Continue) => {
                    left -= 1;
                },
                other => {
                    return other;
                },
            }
        }
        Ok(Action::Continue)
    }
}

} // verus!
