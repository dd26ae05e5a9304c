//! The parser: from tokens to the statement tree.

pub mod ast;
pub mod grammar;
pub mod spelling;

use crate::error::{ConstantError, ConstantErrorView};
use crate::lexer::{tokens_view, Token, TokenType, TokenView};
use ast::block_view;
pub use ast::{DoubleOpType, SingleOpType, Statement, StatementView, Value, ValueView};
use grammar::{
    before_branch, block, conditional, double_operation, elif_blocks, if_block, kind_at,
    moved_on, procedure, program, repetition, single_operation, statement,
};
use vstd::prelude::*;

verus! {

/// A sequence of tokens and a position in it.
pub struct Parser<'a> {
    tokens: &'a Vec<Token>,
    current_pos: usize,
}

/// The mathematical value of a [`Parser`].
pub struct ParserView {
    /// The tokens.
    pub tokens: Seq<TokenView>,
    /// The position of the token that the parser looks at: at most the
    /// number of tokens.
    pub pos: int,
}

impl<'a> View for Parser<'a> {
    type V = ParserView;

    closed spec fn view(&self) -> ParserView {
        ParserView { tokens: tokens_view(self.tokens@), pos: self.current_pos as int }
    }
}

/// The complaint about the token at the position.
pub open spec fn unexpected(tokens: Seq<TokenView>, pos: int) -> ConstantErrorView {
    ConstantErrorView::UnexpectedToken(kind_at(tokens, pos))
}

/// What the parser returns for what the grammar reads: the thing read, or
/// the complaint about the token at which reading stopped.
pub open spec fn answer<T>(tokens: Seq<TokenView>, read: (int, Option<T>)) -> Result<
    T,
    ConstantErrorView,
> {
    match read.1 {
        Some(found) => Ok(found),
        None => Err(unexpected(tokens, read.0)),
    }
}

/// The value of a statement or complaint that the parser returned.
pub open spec fn statement_answer(r: Result<Statement, ConstantError>) -> Result<
    StatementView,
    ConstantErrorView,
> {
    match r {
        Ok(found) => Ok(found@),
        Err(complaint) => Err(complaint@),
    }
}

/// The value of the statements or the complaint that the parser returned.
pub open spec fn block_answer(r: Result<Vec<Statement>, ConstantError>) -> Result<
    Seq<StatementView>,
    ConstantErrorView,
> {
    match r {
        Ok(found) => Ok(block_view(found@)),
        Err(complaint) => Err(complaint@),
    }
}

/// The value of the branch or the complaint that the parser returned.
pub open spec fn branch_answer(r: Result<(Vec<Statement>, Vec<Statement>), ConstantError>) -> Result<
    (Seq<StatementView>, Seq<StatementView>),
    ConstantErrorView,
> {
    match r {
        Ok(found) => Ok((block_view(found.0@), block_view(found.1@))),
        Err(complaint) => Err(complaint@),
    }
}

/// The value of a token or complaint that the parser returned.
pub open spec fn token_answer(r: Result<Token, ConstantError>) -> Result<
    TokenView,
    ConstantErrorView,
> {
    match r {
        Ok(found) => Ok(found@),
        Err(complaint) => Err(complaint@),
    }
}

/// Things that were read already, put before those that follow.
pub open spec fn preceded<T>(found: Seq<T>, rest: (int, Option<Seq<T>>)) -> (int, Option<Seq<T>>) {
    match rest.1 {
        Some(others) => (rest.0, Some(found + others)),
        None => (rest.0, None),
    }
}

fn single_of(kind: TokenType) -> (op: Option<SingleOpType>)
    ensures
        op == single_operation(kind),
{
    match kind {
        TokenType::Print => Some(SingleOpType::Print),
        TokenType::Dup => Some(SingleOpType::Dup),
        TokenType::Drop => Some(SingleOpType::Drop),
        _ => None,
    }
}

fn double_of(kind: TokenType) -> (op: Option<DoubleOpType>)
    ensures
        op == double_operation(kind),
{
    match kind {
        TokenType::Plus => Some(DoubleOpType::Add),
        TokenType::Minus => Some(DoubleOpType::Sub),
        TokenType::Asterisk => Some(DoubleOpType::Mul),
        TokenType::Slash => Some(DoubleOpType::Div),
        TokenType::Percent => Some(DoubleOpType::Mod),
        TokenType::GT => Some(DoubleOpType::GT),
        TokenType::GTEq => Some(DoubleOpType::GTEq),
        TokenType::LT => Some(DoubleOpType::LT),
        TokenType::LTEq => Some(DoubleOpType::LTEq),
        TokenType::Eq => Some(DoubleOpType::Eq),
        TokenType::NotEq => Some(DoubleOpType::NotEq),
        TokenType::And => Some(DoubleOpType::And),
        TokenType::Or => Some(DoubleOpType::Or),
        TokenType::Swap => Some(DoubleOpType::Swap),
        _ => None,
    }
}

fn one_of(stops: &Vec<TokenType>, kind: TokenType) -> (r: bool)
    ensures
        r == stops@.contains(kind),
{
    let mut i: usize = 0;
    while i < stops.len()
        invariant
            i <= stops.len(),
            forall|j: int| 0 <= j < i ==> stops@[j] != kind,
        decreases stops.len() - i,
    {
        if stops[i] == kind {
            return true;
        }
        i += 1;
    }
    false
}

impl<'a> Parser<'a> {
    #[verifier::type_invariant]
    spec fn inv(self) -> bool {
        self.current_pos <= self.tokens@.len()
    }

    /// A parser at the first of the tokens.
    pub fn new(tokens: &'a Vec<Token>) -> (parser: Self)
        ensures
            parser@ == (ParserView { tokens: tokens_view(tokens@), pos: 0 }),
    {
        Self { tokens, current_pos: 0 }
    }

    /// The kind of the token that the parser looks at: `EOF` behind the
    /// last token.
    pub fn kind(&self) -> (kind: TokenType)
        ensures
            kind == kind_at(self@.tokens, self@.pos),
            0 <= self@.pos <= self@.tokens.len(),
    {
        proof {
            use_type_invariant(self);
        }
        if self.current_pos < self.tokens.len() {
            self.tokens[self.current_pos].token_type
        } else {
            TokenType::EOF
        }
    }

    /// Moves to the next token, or behind the last.
    fn next(&mut self)
        ensures
            final(self)@.tokens == old(self)@.tokens,
            final(self)@.pos == if old(self)@.pos < old(self)@.tokens.len() {
                old(self)@.pos + 1
            } else {
                old(self)@.pos
            },
    {
        proof {
            use_type_invariant(&*self);
        }
        if self.current_pos < self.tokens.len() {
            self.current_pos += 1;
        }
    }

    /// Whether the parser looks at a token of the kind.
    fn check_token(&self, token: TokenType) -> (r: bool)
        ensures
            r == (kind_at(self@.tokens, self@.pos) == token),
    {
        self.kind() == token
    }

    /// Passes a token of the kind and returns it, or complains about the
    /// token that is there in its place.
    fn match_token(&mut self, token: TokenType) -> (r: Result<Token, ConstantError>)
        requires
            token != TokenType::EOF,
        ensures
            final(self)@.tokens == old(self)@.tokens,
            kind_at(old(self)@.tokens, old(self)@.pos) == token ==> final(self)@.pos == old(
                self,
            )@.pos + 1 && final(self)@.pos <= old(self)@.tokens.len() && token_answer(r) == Ok::<
                TokenView,
                ConstantErrorView,
            >(old(self)@.tokens[old(self)@.pos]),
            kind_at(old(self)@.tokens, old(self)@.pos) != token ==> final(self)@.pos == old(
                self,
            )@.pos && token_answer(r) == Err::<TokenView, ConstantErrorView>(
                unexpected(old(self)@.tokens, old(self)@.pos),
            ),
    {
        proof {
            use_type_invariant(&*self);
        }
        if self.check_token(token) {
            let found = self.tokens[self.current_pos].clone();
            self.next();
            Ok(found)
        } else {
            Err(ConstantError::UnexpectedToken(self.kind()))
        }
    }

    /// The statements of a program: those up to the end of the input, and
    /// the empty statement behind them.
    pub fn parse(&mut self) -> (r: Result<Vec<Statement>, ConstantError>)
        ensures
            final(self)@.tokens == old(self)@.tokens,
            final(self)@.pos == program(old(self)@.tokens, old(self)@.pos).0,
            block_answer(r) == answer(
                old(self)@.tokens,
                program(old(self)@.tokens, old(self)@.pos),
            ),
    {
        let mut stops: Vec<TokenType> = Vec::new();
        stops.push(TokenType::EOF);
        match self.get_statements_till(stops) {
            Ok(found) => {
                let mut ast = found;
                ast.push(Statement::Empty);
                assert(block_view(ast@) =~= block_view(found@).push(StatementView::Empty));
                Ok(ast)
            },
            Err(complaint) => Err(complaint),
        }
    }

    /// One statement.
    fn statement(&mut self) -> (r: Result<Statement, ConstantError>)
        ensures
            final(self)@.tokens == old(self)@.tokens,
            final(self)@.pos == statement(old(self)@.tokens, old(self)@.pos).0,
            statement_answer(r) == answer(
                old(self)@.tokens,
                statement(old(self)@.tokens, old(self)@.pos),
            ),
            old(self)@.pos <= final(self)@.pos,
            r is Ok ==> moved_on(old(self)@.tokens, old(self)@.pos, final(self)@.pos),
        decreases old(self)@.tokens.len() - old(self)@.pos, 0int,
    {
        proof {
            use_type_invariant(&*self);
        }
        let kind = self.kind();
        if let Some(op) = single_of(kind) {
            self.next();
            Ok(Statement::SingleOperation(op))
        } else if let Some(op) = double_of(kind) {
            self.next();
            Ok(Statement::DoubleOperation(op))
        } else if kind == TokenType::Number || kind == TokenType::Bool || kind
            == TokenType::String {
            let found = match &self.tokens[self.current_pos].literal {
                Some(value) => Some(value.clone()),
                None => None,
            };
            match found {
                Some(value) => {
                    self.next();
                    Ok(Statement::Push(Value::Literal(value)))
                },
                None => Err(ConstantError::UnexpectedToken(kind)),
            }
        } else if kind == TokenType::Bind {
            self.next();
            match self.match_token(TokenType::Ident) {
                Ok(ident) => Ok(Statement::Bind(ident.lexeme)),
                Err(complaint) => Err(complaint),
            }
        } else if kind == TokenType::Ident {
            match self.match_token(TokenType::Ident) {
                Ok(ident) => Ok(Statement::Push(Value::Ident(ident.lexeme))),
                Err(complaint) => Err(complaint),
            }
        } else if kind == TokenType::If {
            self.conditional()
        } else if kind == TokenType::While {
            self.repetition()
        } else if kind == TokenType::Proc {
            self.procedure()
        } else if kind == TokenType::Call {
            self.next();
            match self.match_token(TokenType::Ident) {
                Ok(ident) => Ok(Statement::Call(ident.lexeme)),
                Err(complaint) => Err(complaint),
            }
        } else {
            Err(ConstantError::UnexpectedToken(kind))
        }
    }

    /// An `if` statement.
    #[verifier::loop_isolation(false)]
    fn conditional(&mut self) -> (r: Result<Statement, ConstantError>)
        requires
            kind_at(old(self)@.tokens, old(self)@.pos) == TokenType::If,
        ensures
            final(self)@.tokens == old(self)@.tokens,
            final(self)@.pos == conditional(old(self)@.tokens, old(self)@.pos).0,
            statement_answer(r) == answer(
                old(self)@.tokens,
                conditional(old(self)@.tokens, old(self)@.pos),
            ),
            old(self)@.pos <= final(self)@.pos,
            r is Ok ==> moved_on(old(self)@.tokens, old(self)@.pos, final(self)@.pos),
        decreases old(self)@.tokens.len() - old(self)@.pos - 1, 4int,
    {
        proof {
            use_type_invariant(&*self);
        }
        let ghost tokens = self@.tokens;
        let ghost start = self@.pos;
        self.next();
        let (conditions, statements) = match self.if_block() {
            Ok(branch) => branch,
            Err(complaint) => {
                return Err(complaint);
            },
        };
        proof {
            use_type_invariant(&*self);
        }
        let ghost branches_at = self@.pos;
        let mut elifs: Vec<(Vec<Statement>, Vec<Statement>)> = Vec::new();
        while !self.check_token(TokenType::Else) && !self.check_token(TokenType::End)
            invariant
                self@.tokens == tokens,
                start < branches_at <= self@.pos <= tokens.len(),
                elif_blocks(tokens, branches_at) == preceded(
                    ast::branches_view(elifs@),
                    elif_blocks(tokens, self@.pos),
                ),
            decreases tokens.len() - self@.pos,
        {
            match self.match_token(TokenType::Elif) {
                Ok(_) => {},
                Err(complaint) => {
                    return Err(complaint);
                },
            }
            match self.if_block() {
                Ok(branch) => {
                    elifs.push(branch);
                },
                Err(complaint) => {
                    return Err(complaint);
                },
            }
            proof {
                use_type_invariant(&*self);
            }
        }
        let mut otherwise: Vec<Statement> = Vec::new();
        assert(block_view(otherwise@) =~= Seq::empty());
        if self.check_token(TokenType::Else) {
            self.next();
            match self.match_token(TokenType::Do) {
                Ok(_) => {},
                Err(complaint) => {
                    return Err(complaint);
                },
            }
            let mut stops: Vec<TokenType> = Vec::new();
            stops.push(TokenType::End);
            otherwise = match self.get_statements_till(stops) {
                Ok(found) => found,
                Err(complaint) => {
                    return Err(complaint);
                },
            };
        }
        match self.match_token(TokenType::End) {
            Ok(_) => {},
            Err(complaint) => {
                return Err(complaint);
            },
        }
        Ok(Statement::If(conditions, statements, elifs, otherwise))
    }

    /// A `while` statement.
    fn repetition(&mut self) -> (r: Result<Statement, ConstantError>)
        requires
            kind_at(old(self)@.tokens, old(self)@.pos) == TokenType::While,
        ensures
            final(self)@.tokens == old(self)@.tokens,
            final(self)@.pos == repetition(old(self)@.tokens, old(self)@.pos).0,
            statement_answer(r) == answer(
                old(self)@.tokens,
                repetition(old(self)@.tokens, old(self)@.pos),
            ),
            old(self)@.pos <= final(self)@.pos,
            r is Ok ==> moved_on(old(self)@.tokens, old(self)@.pos, final(self)@.pos),
        decreases old(self)@.tokens.len() - old(self)@.pos - 1, 4int,
    {
        proof {
            use_type_invariant(&*self);
        }
        self.next();
        let mut stops: Vec<TokenType> = Vec::new();
        stops.push(TokenType::Do);
        let conditions = match self.get_statements_till(stops) {
            Ok(found) => found,
            Err(complaint) => {
                return Err(complaint);
            },
        };
        match self.match_token(TokenType::Do) {
            Ok(_) => {},
            Err(complaint) => {
                return Err(complaint);
            },
        }
        let mut stops: Vec<TokenType> = Vec::new();
        stops.push(TokenType::End);
        let statements = match self.get_statements_till(stops) {
            Ok(found) => found,
            Err(complaint) => {
                return Err(complaint);
            },
        };
        match self.match_token(TokenType::End) {
            Ok(_) => {},
            Err(complaint) => {
                return Err(complaint);
            },
        }
        Ok(Statement::While(conditions, statements))
    }

    /// A `proc` statement.
    fn procedure(&mut self) -> (r: Result<Statement, ConstantError>)
        requires
            kind_at(old(self)@.tokens, old(self)@.pos) == TokenType::Proc,
        ensures
            final(self)@.tokens == old(self)@.tokens,
            final(self)@.pos == procedure(old(self)@.tokens, old(self)@.pos).0,
            statement_answer(r) == answer(
                old(self)@.tokens,
                procedure(old(self)@.tokens, old(self)@.pos),
            ),
            old(self)@.pos <= final(self)@.pos,
            r is Ok ==> moved_on(old(self)@.tokens, old(self)@.pos, final(self)@.pos),
        decreases old(self)@.tokens.len() - old(self)@.pos - 1, 4int,
    {
        proof {
            use_type_invariant(&*self);
        }
        self.next();
        let ident = match self.match_token(TokenType::Ident) {
            Ok(found) => found,
            Err(complaint) => {
                return Err(complaint);
            },
        };
        match self.match_token(TokenType::Do) {
            Ok(_) => {},
            Err(complaint) => {
                return Err(complaint);
            },
        }
        let mut stops: Vec<TokenType> = Vec::new();
        stops.push(TokenType::End);
        let statements = match self.get_statements_till(stops) {
            Ok(found) => found,
            Err(complaint) => {
                return Err(complaint);
            },
        };
        match self.match_token(TokenType::End) {
            Ok(_) => {},
            Err(complaint) => {
                return Err(complaint);
            },
        }
        Ok(Statement::Procedure(ident.lexeme, statements))
    }

    /// The conditions and the statements of a branch of an `if`. The
    /// `elif`, `else` or `end` behind them is not passed.
    fn if_block(&mut self) -> (r: Result<(Vec<Statement>, Vec<Statement>), ConstantError>)
        ensures
            final(self)@.tokens == old(self)@.tokens,
            final(self)@.pos == if_block(old(self)@.tokens, old(self)@.pos).0,
            branch_answer(r) == answer(
                old(self)@.tokens,
                if_block(old(self)@.tokens, old(self)@.pos),
            ),
            old(self)@.pos <= final(self)@.pos,
            r is Ok ==> moved_on(old(self)@.tokens, old(self)@.pos, final(self)@.pos),
        decreases old(self)@.tokens.len() - old(self)@.pos, 2int,
    {
        let mut stops: Vec<TokenType> = Vec::new();
        stops.push(TokenType::Do);
        let conditions = match self.get_statements_till(stops) {
            Ok(found) => found,
            Err(complaint) => {
                return Err(complaint);
            },
        };
        match self.match_token(TokenType::Do) {
            Ok(_) => {},
            Err(complaint) => {
                return Err(complaint);
            },
        }
        let mut stops: Vec<TokenType> = Vec::new();
        stops.push(TokenType::Elif);
        stops.push(TokenType::Else);
        stops.push(TokenType::End);
        assert(stops@ =~= before_branch());
        let statements = match self.get_statements_till(stops) {
            Ok(found) => found,
            Err(complaint) => {
                return Err(complaint);
            },
        };
        Ok((conditions, statements))
    }

    /// Statements up to the first token of one of the given kinds, which is
    /// not passed.
    #[verifier::loop_isolation(false)]
    fn get_statements_till(&mut self, tokens: Vec<TokenType>) -> (r: Result<
        Vec<Statement>,
        ConstantError,
    >)
        ensures
            final(self)@.tokens == old(self)@.tokens,
            final(self)@.pos == block(old(self)@.tokens, old(self)@.pos, tokens@).0,
            block_answer(r) == answer(
                old(self)@.tokens,
                block(old(self)@.tokens, old(self)@.pos, tokens@),
            ),
            old(self)@.pos <= final(self)@.pos <= old(self)@.tokens.len(),
        decreases old(self)@.tokens.len() - old(self)@.pos, 1int,
    {
        proof {
            use_type_invariant(&*self);
        }
        let ghost all = self@.tokens;
        let ghost start = self@.pos;
        let mut statements: Vec<Statement> = Vec::new();
        while !one_of(&tokens, self.kind())
            invariant
                self@.tokens == all,
                start <= self@.pos <= all.len(),
                block(all, start, tokens@) == preceded(
                    block_view(statements@),
                    block(all, self@.pos, tokens@),
                ),
            decreases all.len() - self@.pos,
        {
            match self.statement() {
                Ok(statement) => {
                    statements.push(statement);
                    proof {
                        use_type_invariant(&*self);
                    }
                },
                Err(_) => {
                    proof {
                        use_type_invariant(&*self);
                    }
                    return Err(ConstantError::UnexpectedToken(self.kind()));
                },
            }
        }
        Ok(statements)
    }
}

} // verus!
