//! The statements that a sequence of tokens spells, over mathematical
//! values.
//!
//! ```text
//! program    := statement* EOF
//! statement  := literal | identifier | operator
//!             | 'bind' IDENT | 'call' IDENT
//!             | 'proc' IDENT 'do' statement* 'end'
//!             | 'while' statement* 'do' statement* 'end'
//!             | 'if' statement* 'do' statement*
//!               ('elif' statement* 'do' statement*)*
//!               ('else' 'do' statement*)? 'end'
//! ```
//!
//! Each function here reads from a position and gives the position at which
//! it stopped together with what it read, if the tokens from the position on
//! are of its form. If they are not, it gives the position of the token that
//! does not fit, and nothing. Behind the last token the input has ended, as
//! it has at an `EOF` token.
//!
//! Whatever is read is made of at least one token, so that reading always
//! moves on; the functions say so where they read one thing after another.

use crate::lexer::{TokenType, TokenView};
use crate::parser::ast::{DoubleOpType, SingleOpType, StatementView, ValueView};
use vstd::prelude::*;

verus! {

/// The kind of the token at the position: `EOF` behind the last token.
pub open spec fn kind_at(tokens: Seq<TokenView>, pos: int) -> TokenType {
    if 0 <= pos < tokens.len() {
        tokens[pos].token_type
    } else {
        TokenType::EOF
    }
}

/// The operation on one value that a token of the kind stands for.
pub open spec fn single_operation(kind: TokenType) -> Option<SingleOpType> {
    match kind {
        TokenType::Print => Some(SingleOpType::Print),
        TokenType::Dup => Some(SingleOpType::Dup),
        TokenType::Drop => Some(SingleOpType::Drop),
        _ => None,
    }
}

/// The operation on two values that a token of the kind stands for.
pub open spec fn double_operation(kind: TokenType) -> Option<DoubleOpType> {
    match kind {
        TokenType::Plus => Some(DoubleOpType::Add),
        TokenType::Minus => Some(DoubleOpType::Sub),
        TokenType::Asterisk => Some(DoubleOpType::Mul),
        TokenType::Slash => Some(DoubleOpType::Div),
        TokenType::Percent => Some(DoubleOpType::Mod),
        TokenType::GT => Some(DoubleOpType::GT),
        TokenType::GTEq => Some(DoubleOpType::GTEq),
        TokenType::LT => Some(DoubleOpType::LT),
        TokenType::LTEq => Some(DoubleOpType::LTEq),
        TokenType::Eq => Some(DoubleOpType::Eq),
        TokenType::NotEq => Some(DoubleOpType::NotEq),
        TokenType::And => Some(DoubleOpType::And),
        TokenType::Or => Some(DoubleOpType::Or),
        TokenType::Swap => Some(DoubleOpType::Swap),
        _ => None,
    }
}

/// Whether a token of the kind carries a value to push.
pub open spec fn is_literal(kind: TokenType) -> bool {
    kind == TokenType::Number || kind == TokenType::Bool || kind == TokenType::String
}

/// The kind at which the conditions of `if`, `elif` and `while` end.
pub open spec fn before_do() -> Seq<TokenType> {
    seq![TokenType::Do]
}

/// The kind at which the statements of `while`, `proc` and `else` end.
pub open spec fn before_end() -> Seq<TokenType> {
    seq![TokenType::End]
}

/// The kinds at which the statements of a branch of `if` end.
pub open spec fn before_branch() -> Seq<TokenType> {
    seq![TokenType::Elif, TokenType::Else, TokenType::End]
}

/// The kind at which a program ends.
pub open spec fn before_eof() -> Seq<TokenType> {
    seq![TokenType::EOF]
}

/// Whether reading from `pos` to `next` has moved on and stayed within the
/// tokens: what every successful read does.
pub open spec fn moved_on(tokens: Seq<TokenView>, pos: int, next: int) -> bool {
    pos < next <= tokens.len()
}

/// One statement.
pub open spec fn statement(tokens: Seq<TokenView>, pos: int) -> (int, Option<StatementView>)
    decreases tokens.len() - pos, 0int,
{
    let kind = kind_at(tokens, pos);
    if single_operation(kind) is Some {
        (pos + 1, Some(StatementView::SingleOperation(single_operation(kind)->Some_0)))
    } else if double_operation(kind) is Some {
        (pos + 1, Some(StatementView::DoubleOperation(double_operation(kind)->Some_0)))
    } else if is_literal(kind) {
        match tokens[pos].literal {
            Some(value) => (pos + 1, Some(StatementView::Push(ValueView::Literal(value)))),
            None => (pos, None),
        }
    } else if kind == TokenType::Bind {
        if kind_at(tokens, pos + 1) == TokenType::Ident {
            (pos + 2, Some(StatementView::Bind(tokens[pos + 1].lexeme)))
        } else {
            (pos + 1, None)
        }
    } else if kind == TokenType::Ident {
        (pos + 1, Some(StatementView::Push(ValueView::Ident(tokens[pos].lexeme))))
    } else if kind == TokenType::If {
        conditional(tokens, pos)
    } else if kind == TokenType::While {
        repetition(tokens, pos)
    } else if kind == TokenType::Proc {
        procedure(tokens, pos)
    } else if kind == TokenType::Call {
        if kind_at(tokens, pos + 1) == TokenType::Ident {
            (pos + 2, Some(StatementView::Call(tokens[pos + 1].lexeme)))
        } else {
            (pos + 1, None)
        }
    } else {
        (pos, None)
    }
}

/// An `if` statement, whose `if` is at the position.
pub open spec fn conditional(tokens: Seq<TokenView>, pos: int) -> (int, Option<StatementView>)
    decreases tokens.len() - pos - 1, 4int,
{
    if kind_at(tokens, pos) != TokenType::If {
        (pos, None)
    } else {
        let (branches_at, first) = if_block(tokens, pos + 1);
        if first is None || !moved_on(tokens, pos, branches_at) {
            (branches_at, None)
        } else {
            let (else_at, elifs) = elif_blocks(tokens, branches_at);
            if elifs is None || !moved_on(tokens, pos, else_at) {
                (else_at, None)
            } else if kind_at(tokens, else_at) == TokenType::Else {
                if kind_at(tokens, else_at + 1) != TokenType::Do {
                    (else_at + 1, None)
                } else {
                    let (end_at, otherwise) = block(tokens, else_at + 2, before_end());
                    if otherwise is None || kind_at(tokens, end_at) != TokenType::End {
                        (end_at, None)
                    } else {
                        (
                            end_at + 1,
                            Some(
                                StatementView::If(
                                    first->Some_0.0,
                                    first->Some_0.1,
                                    elifs->Some_0,
                                    otherwise->Some_0,
                                ),
                            ),
                        )
                    }
                }
            } else if kind_at(tokens, else_at) != TokenType::End {
                (else_at, None)
            } else {
                (
                    else_at + 1,
                    Some(
                        StatementView::If(
                            first->Some_0.0,
                            first->Some_0.1,
                            elifs->Some_0,
                            Seq::empty(),
                        ),
                    ),
                )
            }
        }
    }
}

/// A `while` statement, whose `while` is at the position.
pub open spec fn repetition(tokens: Seq<TokenView>, pos: int) -> (int, Option<StatementView>)
    decreases tokens.len() - pos - 1, 4int,
{
    if kind_at(tokens, pos) != TokenType::While {
        (pos, None)
    } else {
        let (do_at, conditions) = block(tokens, pos + 1, before_do());
        if conditions is None || kind_at(tokens, do_at) != TokenType::Do || !moved_on(
            tokens,
            pos,
            do_at,
        ) {
            (do_at, None)
        } else {
            let (end_at, statements) = block(tokens, do_at + 1, before_end());
            if statements is None || kind_at(tokens, end_at) != TokenType::End {
                (end_at, None)
            } else {
                (end_at + 1, Some(StatementView::While(conditions->Some_0, statements->Some_0)))
            }
        }
    }
}

/// A `proc` statement, whose `proc` is at the position.
pub open spec fn procedure(tokens: Seq<TokenView>, pos: int) -> (int, Option<StatementView>)
    decreases tokens.len() - pos - 1, 4int,
{
    if kind_at(tokens, pos) != TokenType::Proc {
        (pos, None)
    } else if kind_at(tokens, pos + 1) != TokenType::Ident {
        (pos + 1, None)
    } else if kind_at(tokens, pos + 2) != TokenType::Do {
        (pos + 2, None)
    } else {
        let (end_at, statements) = block(tokens, pos + 3, before_end());
        if statements is None || kind_at(tokens, end_at) != TokenType::End {
            (end_at, None)
        } else {
            (end_at + 1, Some(StatementView::Procedure(tokens[pos + 1].lexeme, statements->Some_0)))
        }
    }
}

/// Statements, one after the other, up to the first token of one of the
/// kinds in `stops`, which is not passed.
pub open spec fn block(tokens: Seq<TokenView>, pos: int, stops: Seq<TokenType>) -> (
    int,
    Option<Seq<StatementView>>,
)
    decreases tokens.len() - pos, 1int,
{
    if stops.contains(kind_at(tokens, pos)) {
        (pos, Some(Seq::empty()))
    } else {
        let (next, first) = statement(tokens, pos);
        if first is None || !moved_on(tokens, pos, next) {
            (next, None)
        } else {
            let (end, rest) = block(tokens, next, stops);
            match rest {
                Some(others) => (end, Some(seq![first->Some_0] + others)),
                None => (end, None),
            }
        }
    }
}

/// The conditions of a branch, `do`, and the statements of the branch, up
/// to the `elif`, `else` or `end` behind them, which is not passed.
pub open spec fn if_block(tokens: Seq<TokenView>, pos: int) -> (
    int,
    Option<(Seq<StatementView>, Seq<StatementView>)>,
)
    decreases tokens.len() - pos, 2int,
{
    let (do_at, conditions) = block(tokens, pos, before_do());
    if conditions is None || kind_at(tokens, do_at) != TokenType::Do || do_at < pos {
        (do_at, None)
    } else {
        let (end, statements) = block(tokens, do_at + 1, before_branch());
        match statements {
            Some(body) => (end, Some((conditions->Some_0, body))),
            None => (end, None),
        }
    }
}

/// The `elif` branches, up to the `else` or `end` behind them, which is not
/// passed.
pub open spec fn elif_blocks(tokens: Seq<TokenView>, pos: int) -> (
    int,
    Option<Seq<(Seq<StatementView>, Seq<StatementView>)>>,
)
    decreases tokens.len() - pos, 3int,
{
    let kind = kind_at(tokens, pos);
    if kind == TokenType::Else || kind == TokenType::End {
        (pos, Some(Seq::empty()))
    } else if kind != TokenType::Elif {
        (pos, None)
    } else {
        let (next, first) = if_block(tokens, pos + 1);
        if first is None || !moved_on(tokens, pos, next) {
            (next, None)
        } else {
            let (end, rest) = elif_blocks(tokens, next);
            match rest {
                Some(others) => (end, Some(seq![first->Some_0] + others)),
                None => (end, None),
            }
        }
    }
}

/// A program: statements up to the end of the input, with the empty
/// statement behind them.
pub open spec fn program(tokens: Seq<TokenView>, pos: int) -> (int, Option<Seq<StatementView>>) {
    let (end, statements) = block(tokens, pos, before_eof());
    match statements {
        Some(found) => (end, Some(found.push(StatementView::Empty))),
        None => (end, None),
    }
}

/// A program that was read ends with the empty statement.
pub proof fn law_program_ends_empty(tokens: Seq<TokenView>, pos: int)
    requires
        program(tokens, pos).1 is Some,
    ensures
        program(tokens, pos).1->Some_0.len() > 0,
        program(tokens, pos).1->Some_0.last() == StatementView::Empty,
{
}

/// Reading a statement never goes back and never leaves the tokens, and a
/// statement that was read is made of at least one token.
pub proof fn law_statement_moves_on(tokens: Seq<TokenView>, pos: int)
    requires
        0 <= pos <= tokens.len(),
    ensures
        pos <= statement(tokens, pos).0 <= tokens.len(),
        statement(tokens, pos).1 is Some ==> moved_on(tokens, pos, statement(tokens, pos).0),
    decreases tokens.len() - pos, 0int,
{
    let kind = kind_at(tokens, pos);
    if single_operation(kind) is Some {
    } else if double_operation(kind) is Some {
    } else if is_literal(kind) {
    } else if kind == TokenType::If {
        law_if_block_moves_on(tokens, pos + 1);
        let (branches_at, first) = if_block(tokens, pos + 1);
        if first is Some {
            law_elif_blocks_move_on(tokens, branches_at);
            let (else_at, elifs) = elif_blocks(tokens, branches_at);
            if elifs is Some && kind_at(tokens, else_at) == TokenType::Else && kind_at(
                tokens,
                else_at + 1,
            ) == TokenType::Do {
                law_block_moves_on(tokens, else_at + 2, before_end());
            }
        }
    } else if kind == TokenType::While {
        law_block_moves_on(tokens, pos + 1, before_do());
        let (do_at, conditions) = block(tokens, pos + 1, before_do());
        if conditions is Some && kind_at(tokens, do_at) == TokenType::Do {
            law_block_moves_on(tokens, do_at + 1, before_end());
        }
    } else if kind == TokenType::Proc {
        if kind_at(tokens, pos + 1) == TokenType::Ident && kind_at(tokens, pos + 2)
            == TokenType::Do {
            law_block_moves_on(tokens, pos + 3, before_end());
        }
    }
}

/// Reading statements never goes back and never leaves the tokens.
pub proof fn law_block_moves_on(tokens: Seq<TokenView>, pos: int, stops: Seq<TokenType>)
    requires
        0 <= pos <= tokens.len(),
    ensures
        pos <= block(tokens, pos, stops).0 <= tokens.len(),
    decreases tokens.len() - pos, 1int,
{
    if !stops.contains(kind_at(tokens, pos)) {
        law_statement_moves_on(tokens, pos);
        let (next, first) = statement(tokens, pos);
        if first is Some {
            law_block_moves_on(tokens, next, stops);
        }
    }
}

/// Reading a branch never goes back and never leaves the tokens, and a
/// branch that was read is made of at least one token, its `do`.
pub proof fn law_if_block_moves_on(tokens: Seq<TokenView>, pos: int)
    requires
        0 <= pos <= tokens.len(),
    ensures
        pos <= if_block(tokens, pos).0 <= tokens.len(),
        if_block(tokens, pos).1 is Some ==> pos < if_block(tokens, pos).0,
    decreases tokens.len() - pos, 2int,
{
    law_block_moves_on(tokens, pos, before_do());
    let (do_at, conditions) = block(tokens, pos, before_do());
    if conditions is Some && kind_at(tokens, do_at) == TokenType::Do {
        law_block_moves_on(tokens, do_at + 1, before_branch());
    }
}

/// Reading `elif` branches never goes back and never leaves the tokens.
pub proof fn law_elif_blocks_move_on(tokens: Seq<TokenView>, pos: int)
    requires
        0 <= pos <= tokens.len(),
    ensures
        pos <= elif_blocks(tokens, pos).0 <= tokens.len(),
    decreases tokens.len() - pos, 3int,
{
    if kind_at(tokens, pos) == TokenType::Elif {
        law_if_block_moves_on(tokens, pos + 1);
        let (next, first) = if_block(tokens, pos + 1);
        if first is Some {
            law_elif_blocks_move_on(tokens, next);
        }
    }
}

} // verus!
