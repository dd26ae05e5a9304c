use crate::lexer::{Literal, LiteralView};
use vstd::prelude::*;

verus! {

/// An operation that takes two values from the stack.
#[derive(Clone, Copy, PartialEq, Eq, Debug, Structural)]
pub enum DoubleOpType {
    Add,
    Sub,
    Mul,
    Div,
    Mod,
    GT,
    GTEq,
    LT,
    LTEq,
    Eq,
    NotEq,
    And,
    Or,
    Swap,
}

/// An operation that takes one value from the stack.
#[derive(Clone, Copy, PartialEq, Eq, Debug, Structural)]
pub enum SingleOpType {
    Print,
    Dup,
    Drop,
}

/// What a push statement pushes: a constant, or the value bound to a name.
#[derive(PartialEq, Debug)]
pub enum Value {
    Literal(Literal),
    Ident(String),
}

/// The mathematical value of a [`Value`].
pub enum ValueView {
    Literal(LiteralView),
    Ident(Seq<char>),
}

impl View for Value {
    type V = ValueView;

    open spec fn view(&self) -> ValueView {
        match self {
            Value::Literal(literal) => ValueView::Literal(literal@),
            Value::Ident(name) => ValueView::Ident(name@),
        }
    }
}

impl Clone for Value {
    fn clone(&self) -> (copy: Self)
        ensures
            copy@ == self@,
    {
        match self {
            Value::Literal(literal) => Value::Literal(literal.clone()),
            Value::Ident(name) => Value::Ident(name.clone()),
        }
    }
}

/// A node of the statement tree.
#[derive(PartialEq, Debug)]
pub enum Statement {
    Push(Value),
    DoubleOperation(DoubleOpType),
    SingleOperation(SingleOpType),
    Bind(String),
    /// Conditions, the statements run when they leave `true`, the `elif`
    /// branches as pairs of conditions and statements, and the statements of
    /// `else`.
    If(Vec<Statement>, Vec<Statement>, Vec<(Vec<Statement>, Vec<Statement>)>, Vec<Statement>),
    While(Vec<Statement>, Vec<Statement>),
    Procedure(String, Vec<Statement>),
    Call(String),
    Empty,
}

/// The mathematical value of a [`Statement`].
pub enum StatementView {
    Push(ValueView),
    DoubleOperation(DoubleOpType),
    SingleOperation(SingleOpType),
    Bind(Seq<char>),
    If(
        Seq<StatementView>,
        Seq<StatementView>,
        Seq<(Seq<StatementView>, Seq<StatementView>)>,
        Seq<StatementView>,
    ),
    While(Seq<StatementView>, Seq<StatementView>),
    Procedure(Seq<char>, Seq<StatementView>),
    Call(Seq<char>),
    Empty,
}

/// The values of a sequence of statements, in order.
pub open spec fn block_view(block: Seq<Statement>) -> Seq<StatementView>
    decreases block, 0int,
{
    Seq::new(
        block.len(),
        |i: int|
            if 0 <= i < block.len() {
                statement_view(block[i])
            } else {
                StatementView::Empty
            },
    )
}

/// The values of a sequence of `elif` branches, in order.
pub open spec fn branches_view(branches: Seq<(Vec<Statement>, Vec<Statement>)>) -> Seq<
    (Seq<StatementView>, Seq<StatementView>),
>
    decreases branches, 0int,
{
    Seq::new(
        branches.len(),
        |i: int|
            if 0 <= i < branches.len() {
                (block_view(branches[i].0@), block_view(branches[i].1@))
            } else {
                (Seq::empty(), Seq::empty())
            },
    )
}

/// The value of one statement.
pub open spec fn statement_view(statement: Statement) -> StatementView
    decreases statement, 1int,
{
    match statement {
        Statement::Push(value) => StatementView::Push(value@),
        Statement::DoubleOperation(op) => StatementView::DoubleOperation(op),
        Statement::SingleOperation(op) => StatementView::SingleOperation(op),
        Statement::Bind(name) => StatementView::Bind(name@),
        Statement::If(conditions, statements, elifs, otherwise) => StatementView::If(
            block_view(conditions@),
            block_view(statements@),
            branches_view(elifs@),
            block_view(otherwise@),
        ),
        Statement::While(conditions, statements) => StatementView::While(
            block_view(conditions@),
            block_view(statements@),
        ),
        Statement::Procedure(name, statements) => StatementView::Procedure(
            name@,
            block_view(statements@),
        ),
        Statement::Call(name) => StatementView::Call(name@),
        Statement::Empty => StatementView::Empty,
    }
}

impl View for Statement {
    type V = StatementView;

    open spec fn view(&self) -> StatementView {
        statement_view(*self)
    }
}

/// A copy of a sequence of statements.
pub fn clone_block(block: &Vec<Statement>) -> (copy: Vec<Statement>)
    ensures
        block_view(copy@) == block_view(block@),
    decreases block, 0int,
{
    let mut copy: Vec<Statement> = Vec::new();
    let mut i: usize = 0;
    while i < block.len()
        invariant
            i <= block.len(),
            copy.len() == i,
            forall|j: int| 0 <= j < i ==> copy[j]@ == block[j]@,
        decreases block.len() - i,
    {
        copy.push(clone_statement(&block[i]));
        i += 1;
    }
    copy
}

/// A copy of a sequence of `elif` branches.
pub fn clone_branches(branches: &Vec<(Vec<Statement>, Vec<Statement>)>) -> (copy: Vec<
    (Vec<Statement>, Vec<Statement>),
>)
    ensures
        branches_view(copy@) == branches_view(branches@),
    decreases branches, 0int,
{
    let mut copy: Vec<(Vec<Statement>, Vec<Statement>)> = Vec::new();
    let mut i: usize = 0;
    while i < branches.len()
        invariant
            i <= branches.len(),
            copy.len() == i,
            forall|j: int|
                0 <= j < i ==> block_view(copy[j].0@) == block_view(branches[j].0@) && block_view(
                    copy[j].1@,
                ) == block_view(branches[j].1@),
        decreases branches.len() - i,
    {
        let conditions = clone_block(&branches[i].0);
        let statements = clone_block(&branches[i].1);
        copy.push((conditions, statements));
        i += 1;
    }
    copy
}

/// A copy of one statement.
pub fn clone_statement(statement: &Statement) -> (copy: Statement)
    ensures
        copy@ == statement@,
    decreases statement, 1int,
{
    match statement {
        Statement::Push(value) => Statement::Push(value.clone()),
        Statement::DoubleOperation(op) => Statement::DoubleOperation(*op),
        Statement::SingleOperation(op) => Statement::SingleOperation(*op),
        Statement::Bind(name) => Statement::Bind(name.clone()),
        Statement::If(conditions, statements, elifs, otherwise) => Statement::If(
            clone_block(conditions),
            clone_block(statements),
            clone_branches(elifs),
            clone_block(otherwise),
        ),
        Statement::While(conditions, statements) => Statement::While(
            clone_block(conditions),
            clone_block(statements),
        ),
        Statement::Procedure(name, statements) => Statement::Procedure(
            name.clone(),
            clone_block(statements),
        ),
        Statement::Call(name) => Statement::Call(name.clone()),
        Statement::Empty => Statement::Empty,
    }
}

impl Clone for Statement {
    fn clone(&self) -> (copy: Self)
        ensures
            copy@ == self@,
    {
        clone_statement(self)
    }
}

} // verus!
