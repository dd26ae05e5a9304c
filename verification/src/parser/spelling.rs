//! How a statement is written in tokens, and that the grammar reads back
//! what was written.

use crate::lexer::{LiteralView, TokenType, TokenView};
use crate::parser::ast::{DoubleOpType, SingleOpType, StatementView, ValueView};
use crate::parser::grammar::{
    before_branch, before_do, before_end, before_eof, block, double_operation, elif_blocks,
    if_block, is_literal, kind_at, program, single_operation, statement,
};
use vstd::prelude::*;

verus! {

/// A token that is read for its kind alone.
pub open spec fn word(kind: TokenType) -> TokenView {
    TokenView { token_type: kind, lexeme: Seq::empty(), literal: None }
}

/// The token of a name.
pub open spec fn name(name: Seq<char>) -> TokenView {
    TokenView { token_type: TokenType::Ident, lexeme: name, literal: None }
}

/// The token of a constant.
pub open spec fn constant(value: LiteralView) -> TokenView {
    TokenView {
        token_type: match value {
            LiteralView::Number(_) => TokenType::Number,
            LiteralView::String(_) => TokenType::String,
            LiteralView::Bool(_) => TokenType::Bool,
        },
        lexeme: Seq::empty(),
        literal: Some(value),
    }
}

/// The kind of token that stands for an operation on one value.
pub open spec fn single_kind(op: SingleOpType) -> TokenType {
    match op {
        SingleOpType::Print => TokenType::Print,
        SingleOpType::Dup => TokenType::Dup,
        SingleOpType::Drop => TokenType::Drop,
    }
}

/// The kind of token that stands for an operation on two values.
pub open spec fn double_kind(op: DoubleOpType) -> TokenType {
    match op {
        DoubleOpType::Add => TokenType::Plus,
        DoubleOpType::Sub => TokenType::Minus,
        DoubleOpType::Mul => TokenType::Asterisk,
        DoubleOpType::Div => TokenType::Slash,
        DoubleOpType::Mod => TokenType::Percent,
        DoubleOpType::GT => TokenType::GT,
        DoubleOpType::GTEq => TokenType::GTEq,
        DoubleOpType::LT => TokenType::LT,
        DoubleOpType::LTEq => TokenType::LTEq,
        DoubleOpType::Eq => TokenType::Eq,
        DoubleOpType::NotEq => TokenType::NotEq,
        DoubleOpType::And => TokenType::And,
        DoubleOpType::Or => TokenType::Or,
        DoubleOpType::Swap => TokenType::Swap,
    }
}

/// Whether a statement can be written: the empty statement cannot, and
/// stands nowhere inside a statement that can.
pub open spec fn written(statement: StatementView) -> bool
    decreases statement,
{
    match statement {
        StatementView::Empty => false,
        StatementView::If(conditions, statements, elifs, otherwise) => {
            &&& all_written(conditions)
            &&& all_written(statements)
            &&& branches_written(elifs)
            &&& all_written(otherwise)
        },
        StatementView::While(conditions, statements) => {
            &&& all_written(conditions)
            &&& all_written(statements)
        },
        StatementView::Procedure(_, statements) => all_written(statements),
        _ => true,
    }
}

/// Whether every statement of a block can be written.
pub open spec fn all_written(statements: Seq<StatementView>) -> bool
    decreases statements,
{
    if statements.len() == 0 {
        true
    } else {
        written(statements[0]) && all_written(statements.drop_first())
    }
}

/// Whether every statement of every branch can be written.
pub open spec fn branches_written(elifs: Seq<(Seq<StatementView>, Seq<StatementView>)>) -> bool
    decreases elifs,
{
    if elifs.len() == 0 {
        true
    } else {
        &&& all_written(elifs[0].0)
        &&& all_written(elifs[0].1)
        &&& branches_written(elifs.drop_first())
    }
}

/// A branch: the tokens of its conditions, `do`, and the tokens of its
/// statements.
pub open spec fn branch(conditions: Seq<TokenView>, statements: Seq<TokenView>) -> Seq<TokenView> {
    conditions + seq![word(TokenType::Do)] + statements
}

/// The tokens that a statement is written in.
pub open spec fn spelled(statement: StatementView) -> Seq<TokenView>
    decreases statement,
{
    match statement {
        StatementView::Push(ValueView::Literal(value)) => seq![constant(value)],
        StatementView::Push(ValueView::Ident(n)) => seq![name(n)],
        StatementView::SingleOperation(op) => seq![word(single_kind(op))],
        StatementView::DoubleOperation(op) => seq![word(double_kind(op))],
        StatementView::Bind(n) => seq![word(TokenType::Bind), name(n)],
        StatementView::If(conditions, statements, elifs, otherwise) => seq![word(TokenType::If)]
            + branch(spelled_all(conditions), spelled_all(statements)) + spelled_branches(elifs)
            + (if otherwise.len() == 0 {
            Seq::empty()
        } else {
            seq![word(TokenType::Else)] + branch(Seq::empty(), spelled_all(otherwise))
        }) + seq![word(TokenType::End)],
        StatementView::While(conditions, statements) => seq![word(TokenType::While)] + branch(
            spelled_all(conditions),
            spelled_all(statements),
        ) + seq![word(TokenType::End)],
        StatementView::Procedure(n, statements) => seq![word(TokenType::Proc), name(n)] + branch(
            Seq::empty(),
            spelled_all(statements),
        ) + seq![word(TokenType::End)],
        StatementView::Call(n) => seq![word(TokenType::Call), name(n)],
        StatementView::Empty => Seq::empty(),
    }
}

/// The tokens that the statements of a block are written in.
pub open spec fn spelled_all(statements: Seq<StatementView>) -> Seq<TokenView>
    decreases statements,
{
    if statements.len() == 0 {
        Seq::empty()
    } else {
        spelled(statements[0]) + spelled_all(statements.drop_first())
    }
}

/// The tokens that `elif` branches are written in.
pub open spec fn spelled_branches(elifs: Seq<(Seq<StatementView>, Seq<StatementView>)>) -> Seq<
    TokenView,
>
    decreases elifs,
{
    if elifs.len() == 0 {
        Seq::empty()
    } else {
        seq![word(TokenType::Elif)] + branch(spelled_all(elifs[0].0), spelled_all(elifs[0].1))
            + spelled_branches(elifs.drop_first())
    }
}

/// Whether the tokens from the position on start with the given ones.
pub open spec fn reads(tokens: Seq<TokenView>, pos: int, part: Seq<TokenView>) -> bool {
    &&& 0 <= pos
    &&& pos + part.len() <= tokens.len()
    &&& tokens.subrange(pos, pos + part.len()) == part
}

/// Whether a statement can start with a token of the kind.
pub open spec fn opens(kind: TokenType) -> bool {
    ||| single_operation(kind) is Some
    ||| double_operation(kind) is Some
    ||| is_literal(kind)
    ||| kind == TokenType::Bind
    ||| kind == TokenType::Ident
    ||| kind == TokenType::If
    ||| kind == TokenType::While
    ||| kind == TokenType::Proc
    ||| kind == TokenType::Call
}

/// Whether no statement can start with a token of one of the kinds.
pub open spec fn closing(stops: Seq<TokenType>) -> bool {
    forall|kind: TokenType| stops.contains(kind) ==> !opens(kind)
}

/// The tokens start with one sequence and go on with another exactly if
/// they start with the two put together.
pub proof fn lemma_reads_both(
    tokens: Seq<TokenView>,
    pos: int,
    first: Seq<TokenView>,
    second: Seq<TokenView>,
)
    ensures
        reads(tokens, pos, first + second) <==> reads(tokens, pos, first) && reads(
            tokens,
            pos + first.len(),
            second,
        ),
{
    let both = first + second;
    if reads(tokens, pos, both) {
        assert(tokens.subrange(pos, pos + first.len()) =~= first) by {
            assert forall|i: int| 0 <= i < first.len() implies tokens[pos + i] == first[i] by {
                assert(tokens.subrange(pos, pos + both.len())[i] == both[i]);
            }
        }
        assert(tokens.subrange(pos + first.len(), pos + first.len() + second.len()) =~= second)
            by {
            assert forall|i: int| 0 <= i < second.len() implies tokens[pos + first.len() + i]
                == second[i] by {
                assert(tokens.subrange(pos, pos + both.len())[first.len() + i] == both[first.len()
                    + i]);
            }
        }
    }
    if reads(tokens, pos, first) && reads(tokens, pos + first.len(), second) {
        assert(tokens.subrange(pos, pos + both.len()) =~= both) by {
            assert forall|i: int| 0 <= i < both.len() implies tokens[pos + i] == both[i] by {}
        }
    }
}

/// The tokens start with a single token exactly if that token stands at the
/// position.
pub proof fn lemma_reads_one(tokens: Seq<TokenView>, pos: int, token: TokenView)
    ensures
        reads(tokens, pos, seq![token]) <==> 0 <= pos < tokens.len() && tokens[pos] == token,
{
    if reads(tokens, pos, seq![token]) {
        assert(tokens.subrange(pos, pos + 1)[0] == token);
    }
    if 0 <= pos < tokens.len() && tokens[pos] == token {
        assert(tokens.subrange(pos, pos + 1) =~= seq![token]);
    }
}

/// The tokens start with a branch exactly if they start with its
/// conditions, go on with `do`, and then with its statements.
pub proof fn lemma_reads_branch(
    tokens: Seq<TokenView>,
    pos: int,
    conditions: Seq<TokenView>,
    statements: Seq<TokenView>,
)
    ensures
        branch(conditions, statements).len() == conditions.len() + 1 + statements.len(),
        reads(tokens, pos, branch(conditions, statements)) <==> {
            &&& reads(tokens, pos, conditions)
            &&& pos + conditions.len() < tokens.len()
            &&& tokens[pos + conditions.len()] == word(TokenType::Do)
            &&& reads(tokens, pos + conditions.len() + 1, statements)
        },
{
    let middle = seq![word(TokenType::Do)];
    lemma_reads_both(tokens, pos, conditions + middle, statements);
    lemma_reads_both(tokens, pos, conditions, middle);
    lemma_reads_one(tokens, pos + conditions.len(), word(TokenType::Do));
}

/// The kinds at which blocks end start no statement.
pub proof fn lemma_stops_close()
    ensures
        closing(before_do()),
        closing(before_end()),
        closing(before_branch()),
        closing(before_eof()),
{
    assert forall|kind: TokenType| before_do().contains(kind) implies !opens(kind) by {
        let i = choose|i: int| 0 <= i < before_do().len() && before_do()[i] == kind;
    }
    assert forall|kind: TokenType| before_end().contains(kind) implies !opens(kind) by {
        let i = choose|i: int| 0 <= i < before_end().len() && before_end()[i] == kind;
    }
    assert forall|kind: TokenType| before_branch().contains(kind) implies !opens(kind) by {
        let i = choose|i: int| 0 <= i < before_branch().len() && before_branch()[i] == kind;
    }
    assert forall|kind: TokenType| before_eof().contains(kind) implies !opens(kind) by {
        let i = choose|i: int| 0 <= i < before_eof().len() && before_eof()[i] == kind;
    }
}

/// A statement that can be written is written in at least one token, and
/// its first token is one that a statement can start with.
pub proof fn lemma_spelled_opens(statement: StatementView)
    requires
        written(statement),
    ensures
        spelled(statement).len() >= 1,
        opens(spelled(statement)[0].token_type),
{
}

/// The grammar reads a written statement back from the tokens that it is
/// written in, whatever follows them.
pub proof fn lemma_statement_read_back(tokens: Seq<TokenView>, pos: int, s: StatementView)
    requires
        written(s),
        reads(tokens, pos, spelled(s)),
    ensures
        statement(tokens, pos) == (pos + spelled(s).len(), Some(s)),
    decreases s,
{
    lemma_stops_close();
    match s {
        StatementView::Push(ValueView::Literal(value)) => {
            lemma_reads_one(tokens, pos, constant(value));
        },
        StatementView::Push(ValueView::Ident(n)) => {
            lemma_reads_one(tokens, pos, name(n));
        },
        StatementView::SingleOperation(op) => {
            lemma_reads_one(tokens, pos, word(single_kind(op)));
        },
        StatementView::DoubleOperation(op) => {
            lemma_reads_one(tokens, pos, word(double_kind(op)));
        },
        StatementView::Procedure(n, statements) => {
            let head = seq![word(TokenType::Proc), name(n)];
            let body = spelled_all(statements);
            let end = seq![word(TokenType::End)];
            lemma_reads_both(tokens, pos, head + branch(Seq::empty(), body), end);
            lemma_reads_both(tokens, pos, head, branch(Seq::empty(), body));
            lemma_reads_branch(tokens, pos + 2, Seq::empty(), body);
            let end_at = pos + 3 + body.len();
            lemma_reads_one(tokens, end_at, word(TokenType::End));
            assert(before_end().contains(kind_at(tokens, end_at)));
            lemma_block_read_back(tokens, pos + 3, statements, before_end());
        },
        StatementView::While(conditions, statements) => {
            let head = seq![word(TokenType::While)];
            let tests = spelled_all(conditions);
            let body = spelled_all(statements);
            let end = seq![word(TokenType::End)];
            lemma_reads_both(tokens, pos, head + branch(tests, body), end);
            lemma_reads_both(tokens, pos, head, branch(tests, body));
            lemma_reads_one(tokens, pos, word(TokenType::While));
            lemma_reads_branch(tokens, pos + 1, tests, body);
            let do_at = pos + 1 + tests.len();
            let end_at = do_at + 1 + body.len();
            lemma_reads_one(tokens, end_at, word(TokenType::End));
            lemma_block_read_back(tokens, pos + 1, conditions, before_do());
            lemma_block_read_back(tokens, do_at + 1, statements, before_end());
        },
        StatementView::If(conditions, statements, elifs, otherwise) => {
            let head = seq![word(TokenType::If)];
            let tests = spelled_all(conditions);
            let body = spelled_all(statements);
            let others = spelled_branches(elifs);
            let rest = spelled_all(otherwise);
            let last = if otherwise.len() == 0 {
                Seq::<TokenView>::empty()
            } else {
                seq![word(TokenType::Else)] + branch(Seq::empty(), rest)
            };
            let end = seq![word(TokenType::End)];
            lemma_reads_both(tokens, pos, head + branch(tests, body) + others + last, end);
            lemma_reads_both(tokens, pos, head + branch(tests, body) + others, last);
            lemma_reads_both(tokens, pos, head + branch(tests, body), others);
            lemma_reads_both(tokens, pos, head, branch(tests, body));
            lemma_reads_one(tokens, pos, word(TokenType::If));
            lemma_reads_branch(tokens, pos + 1, tests, body);
            let do_at = pos + 1 + tests.len();
            let branches_at = do_at + 1 + body.len();
            let else_at = branches_at + others.len();
            let end_at = else_at + last.len();
            lemma_reads_one(tokens, end_at, word(TokenType::End));
            if otherwise.len() > 0 {
                lemma_reads_both(
                    tokens,
                    else_at,
                    seq![word(TokenType::Else)],
                    branch(Seq::empty(), rest),
                );
                lemma_reads_one(tokens, else_at, word(TokenType::Else));
                lemma_reads_branch(tokens, else_at + 1, Seq::empty(), rest);
                assert(before_end().contains(kind_at(tokens, end_at))) by {
                    assert(before_end()[0] == TokenType::End);
                }
                lemma_block_read_back(tokens, else_at + 2, otherwise, before_end());
            } else {
                assert(otherwise =~= Seq::empty());
            }
            if elifs.len() > 0 {
                let next = seq![word(TokenType::Elif)] + branch(
                    spelled_all(elifs[0].0),
                    spelled_all(elifs[0].1),
                );
                lemma_reads_both(tokens, branches_at, next, spelled_branches(elifs.drop_first()));
                lemma_reads_both(
                    tokens,
                    branches_at,
                    seq![word(TokenType::Elif)],
                    branch(spelled_all(elifs[0].0), spelled_all(elifs[0].1)),
                );
                lemma_reads_one(tokens, branches_at, word(TokenType::Elif));
            }
            assert(before_do().contains(kind_at(tokens, do_at))) by {
                assert(before_do()[0] == TokenType::Do);
            }
            lemma_block_read_back(tokens, pos + 1, conditions, before_do());
            lemma_block_read_back(tokens, do_at + 1, statements, before_branch());
            lemma_branches_read_back(tokens, branches_at, elifs);
        },
        _ => {},
    }
}

/// The grammar reads the written statements of a block back from the tokens
/// that they are written in, if a token follows at which the block ends.
pub proof fn lemma_block_read_back(
    tokens: Seq<TokenView>,
    pos: int,
    statements: Seq<StatementView>,
    stops: Seq<TokenType>,
)
    requires
        all_written(statements),
        reads(tokens, pos, spelled_all(statements)),
        closing(stops),
        stops.contains(kind_at(tokens, pos + spelled_all(statements).len())),
    ensures
        block(tokens, pos, stops) == (pos + spelled_all(statements).len(), Some(statements)),
    decreases statements,
{
    if statements.len() > 0 {
        let first = statements[0];
        let rest = statements.drop_first();
        lemma_reads_both(tokens, pos, spelled(first), spelled_all(rest));
        lemma_spelled_opens(first);
        lemma_statement_read_back(tokens, pos, first);
        let next = pos + spelled(first).len();
        lemma_block_read_back(tokens, next, rest, stops);
    }
}

/// The grammar reads written `elif` branches back from the tokens that they
/// are written in, if `else` or `end` follows.
pub proof fn lemma_branches_read_back(
    tokens: Seq<TokenView>,
    pos: int,
    elifs: Seq<(Seq<StatementView>, Seq<StatementView>)>,
)
    requires
        branches_written(elifs),
        reads(tokens, pos, spelled_branches(elifs)),
        kind_at(tokens, pos + spelled_branches(elifs).len()) == TokenType::Else || kind_at(
            tokens,
            pos + spelled_branches(elifs).len(),
        ) == TokenType::End,
    ensures
        elif_blocks(tokens, pos) == (pos + spelled_branches(elifs).len(), Some(elifs)),
    decreases elifs,
{
    lemma_stops_close();
    if elifs.len() > 0 {
        let conditions = elifs[0].0;
        let statements = elifs[0].1;
        let rest = elifs.drop_first();
        let head = seq![word(TokenType::Elif)];
        let tests = spelled_all(conditions);
        let body = spelled_all(statements);
        lemma_reads_both(tokens, pos, head + branch(tests, body), spelled_branches(rest));
        lemma_reads_both(tokens, pos, head, branch(tests, body));
        lemma_reads_one(tokens, pos, word(TokenType::Elif));
        lemma_reads_branch(tokens, pos + 1, tests, body);
        let do_at = pos + 1 + tests.len();
        let next = do_at + 1 + body.len();
        if rest.len() > 0 {
            let following = seq![word(TokenType::Elif)] + branch(
                spelled_all(rest[0].0),
                spelled_all(rest[0].1),
            );
            lemma_reads_both(tokens, next, following, spelled_branches(rest.drop_first()));
            lemma_reads_both(
                tokens,
                next,
                seq![word(TokenType::Elif)],
                branch(spelled_all(rest[0].0), spelled_all(rest[0].1)),
            );
            lemma_reads_one(tokens, next, word(TokenType::Elif));
        }
        assert(before_do().contains(kind_at(tokens, do_at))) by {
            assert(before_do()[0] == TokenType::Do);
        }
        lemma_block_read_back(tokens, pos + 1, conditions, before_do());
        lemma_block_read_back(tokens, do_at + 1, statements, before_branch());
        assert(if_block(tokens, pos + 1) == (next, Some((conditions, statements))));
        lemma_branches_read_back(tokens, next, rest);
    }
}

/// A statement that the grammar reads is one that can be written.
pub proof fn law_statement_read_is_written(tokens: Seq<TokenView>, pos: int)
    requires
        0 <= pos <= tokens.len(),
        statement(tokens, pos).1 is Some,
    ensures
        written(statement(tokens, pos).1->Some_0),
    decreases tokens.len() - pos, 0int,
{
    let kind = kind_at(tokens, pos);
    if single_operation(kind) is Some {
    } else if double_operation(kind) is Some {
    } else if is_literal(kind) {
    } else if kind == TokenType::If {
        law_if_block_read_is_written(tokens, pos + 1);
        let branches_at = if_block(tokens, pos + 1).0;
        law_elif_blocks_read_are_written(tokens, branches_at);
        let else_at = elif_blocks(tokens, branches_at).0;
        if kind_at(tokens, else_at) == TokenType::Else {
            law_block_read_is_written(tokens, else_at + 2, before_end());
        }
    } else if kind == TokenType::While {
        law_block_read_is_written(tokens, pos + 1, before_do());
        let do_at = block(tokens, pos + 1, before_do()).0;
        law_block_read_is_written(tokens, do_at + 1, before_end());
    } else if kind == TokenType::Proc {
        law_block_read_is_written(tokens, pos + 3, before_end());
    }
}

/// The statements that the grammar reads are such as can be written.
pub proof fn law_block_read_is_written(tokens: Seq<TokenView>, pos: int, stops: Seq<TokenType>)
    requires
        0 <= pos <= tokens.len(),
        block(tokens, pos, stops).1 is Some,
    ensures
        all_written(block(tokens, pos, stops).1->Some_0),
    decreases tokens.len() - pos, 1int,
{
    if !stops.contains(kind_at(tokens, pos)) {
        let (next, first) = statement(tokens, pos);
        law_statement_read_is_written(tokens, pos);
        law_block_read_is_written(tokens, next, stops);
        let rest = block(tokens, next, stops).1->Some_0;
        let all = seq![first->Some_0] + rest;
        assert(all.drop_first() =~= rest);
    }
}

/// The branch that the grammar reads is made of statements that can be
/// written.
pub proof fn law_if_block_read_is_written(tokens: Seq<TokenView>, pos: int)
    requires
        0 <= pos <= tokens.len(),
        if_block(tokens, pos).1 is Some,
    ensures
        all_written(if_block(tokens, pos).1->Some_0.0),
        all_written(if_block(tokens, pos).1->Some_0.1),
    decreases tokens.len() - pos, 2int,
{
    law_block_read_is_written(tokens, pos, before_do());
    let do_at = block(tokens, pos, before_do()).0;
    law_block_read_is_written(tokens, do_at + 1, before_branch());
}

/// The `elif` branches that the grammar reads are made of statements that
/// can be written.
pub proof fn law_elif_blocks_read_are_written(tokens: Seq<TokenView>, pos: int)
    requires
        0 <= pos <= tokens.len(),
        elif_blocks(tokens, pos).1 is Some,
    ensures
        branches_written(elif_blocks(tokens, pos).1->Some_0),
    decreases tokens.len() - pos, 3int,
{
    if kind_at(tokens, pos) == TokenType::Elif {
        let (next, first) = if_block(tokens, pos + 1);
        law_if_block_read_is_written(tokens, pos + 1);
        law_elif_blocks_read_are_written(tokens, next);
        let rest = elif_blocks(tokens, next).1->Some_0;
        let all = seq![first->Some_0] + rest;
        assert(all.drop_first() =~= rest);
    }
}

/// Reading back what was written: the statements of a program that can be
/// written, put into tokens and followed by the end of the input, are read
/// as that very program, with the empty statement behind it.
pub proof fn law_program_read_back(statements: Seq<StatementView>)
    requires
        all_written(statements),
    ensures
        program(spelled_all(statements).push(word(TokenType::EOF)), 0) == (
            spelled_all(statements).len() as int,
            Some(statements.push(StatementView::Empty)),
        ),
{
    let tokens = spelled_all(statements).push(word(TokenType::EOF));
    lemma_stops_close();
    assert(tokens.subrange(0, spelled_all(statements).len() as int) =~= spelled_all(statements));
    assert(before_eof().contains(kind_at(tokens, spelled_all(statements).len() as int))) by {
        assert(before_eof()[0] == TokenType::EOF);
    }
    lemma_block_read_back(tokens, 0, statements, before_eof());
}

} // verus!
