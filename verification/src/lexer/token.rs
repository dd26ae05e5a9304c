use crate::error::{ConstantError, ConstantErrorView};
use crate::number::{count, count_of, is_less, is_same, less, same};
use crate::text::{comes_before, precedes, repeat, repeated};
use vstd::prelude::*;

verus! {

/// The kind of a token.
#[derive(Debug, PartialEq, Eq, Copy, Clone, Hash, Structural)]
pub enum TokenType {
    // operations
    Plus,
    Minus,
    Asterisk,
    Slash,
    Percent,
    GT,
    LT,
    Eq,
    GTEq,
    LTEq,
    NotEq,
    And,
    Or,
    // data types
    Number,
    String,
    Bool,
    // built-ins
    Print,
    Dup,
    Swap,
    Drop,
    Bind,
    If,
    Elif,
    Else,
    While,
    Proc,
    Call,
    Do,
    End,
    Ident,
    EOF,
}

/// A runtime value.
///
/// A number is the bit pattern of an IEEE-754 binary32 value. `==` on this
/// type compares what is held, bit by bit; the equality of the language is
/// [`Literal::equals`].
#[derive(Debug, PartialEq)]
pub enum Literal {
    Number(u32),
    String(String),
    Bool(bool),
}

/// The mathematical value of a [`Literal`].
pub enum LiteralView {
    Number(u32),
    String(Seq<char>),
    Bool(bool),
}

impl View for Literal {
    type V = LiteralView;

    open spec fn view(&self) -> LiteralView {
        match self {
            Literal::Number(bits) => LiteralView::Number(*bits),
            Literal::String(text) => LiteralView::String(text@),
            Literal::Bool(truth) => LiteralView::Bool(*truth),
        }
    }
}

impl Clone for Literal {
    fn clone(&self) -> (copy: Self)
        ensures
            copy@ == self@,
    {
        match self {
            Literal::Number(bits) => Literal::Number(*bits),
            Literal::String(text) => Literal::String(text.clone()),
            Literal::Bool(truth) => Literal::Bool(*truth),
        }
    }
}

/// One lexical unit of the source text: its kind, its text, and its value
/// where the kind carries one. A number leaves the lexer with its text
/// alone; its value is for the host to work out and put in.
#[derive(Debug, PartialEq)]
pub struct Token {
    pub token_type: TokenType,
    pub lexeme: String,
    pub literal: Option<Literal>,
}

/// The mathematical value of a [`Token`].
pub struct TokenView {
    pub token_type: TokenType,
    pub lexeme: Seq<char>,
    pub literal: Option<LiteralView>,
}

/// The value of a literal that may be missing.
pub open spec fn literal_view(literal: Option<Literal>) -> Option<LiteralView> {
    match literal {
        Some(value) => Some(value@),
        None => None,
    }
}

impl View for Token {
    type V = TokenView;

    open spec fn view(&self) -> TokenView {
        TokenView {
            token_type: self.token_type,
            lexeme: self.lexeme@,
            literal: literal_view(self.literal),
        }
    }
}

impl Clone for Token {
    fn clone(&self) -> (copy: Self)
        ensures
            copy@ == self@,
    {
        let literal = match &self.literal {
            Some(value) => Some(value.clone()),
            None => None,
        };
        Token { token_type: self.token_type, lexeme: self.lexeme.clone(), literal }
    }
}

impl Token {
    /// A token of the given kind, text and value.
    pub fn new(token_type: TokenType, lexeme: String, literal: Option<Literal>) -> (token: Self)
        ensures
            token.token_type == token_type,
            token.lexeme == lexeme,
            token.literal == literal,
    {
        Self { token_type, lexeme, literal }
    }

    /// The token that ends the input: no text, no value.
    pub fn eof() -> (token: Self)
        ensures
            token@ == (TokenView {
                token_type: TokenType::EOF,
                lexeme: Seq::<char>::empty(),
                literal: None,
            }),
    {
        Self { token_type: TokenType::EOF, lexeme: String::new(), literal: None }
    }
}

/// The operators on two numbers whose result is left to the host.
#[derive(Debug, PartialEq, Eq, Copy, Clone, Structural)]
pub enum Arithmetic {
    Add,
    Sub,
    Mul,
    Div,
    Rem,
}

/// What an arithmetic operator gives on two values that it accepts.
#[derive(Debug, PartialEq)]
pub enum Outcome {
    /// The result itself.
    Value(Literal),
    /// Both operands are numbers: the result is the number that the operator
    /// gives on these two, left first, in IEEE-754 binary32 arithmetic.
    Arithmetic(Arithmetic, u32, u32),
}

/// The mathematical value of an [`Outcome`].
pub enum OutcomeView {
    Value(LiteralView),
    Arithmetic(Arithmetic, u32, u32),
}

impl View for Outcome {
    type V = OutcomeView;

    open spec fn view(&self) -> OutcomeView {
        match self {
            Outcome::Value(value) => OutcomeView::Value(value@),
            Outcome::Arithmetic(op, left, right) => OutcomeView::Arithmetic(*op, *left, *right),
        }
    }
}

/// The value of what an operator returned.
pub open spec fn outcome_view(r: Result<Outcome, ConstantError>) -> Result<
    OutcomeView,
    ConstantErrorView,
> {
    match r {
        Ok(outcome) => Ok(outcome@),
        Err(error) => Err(error@),
    }
}

/// The refusal of an operation, with the reason.
pub open spec fn invalid(why: &str) -> Result<OutcomeView, ConstantErrorView> {
    Err(ConstantErrorView::InvalidOperation(why@))
}

/// `left + right`: the sum of two numbers, or two texts joined.
pub open spec fn add_spec(left: LiteralView, right: LiteralView) -> Result<
    OutcomeView,
    ConstantErrorView,
> {
    match (left, right) {
        (LiteralView::Number(n), LiteralView::Number(m)) => Ok(
            OutcomeView::Arithmetic(Arithmetic::Add, n, m),
        ),
        (LiteralView::Number(_), _) => invalid("Can only add numbers to numbers"),
        (LiteralView::Bool(_), _) => invalid("Cannot add booleans"),
        (LiteralView::String(s), LiteralView::String(z)) => Ok(
            OutcomeView::Value(LiteralView::String(s + z)),
        ),
        (LiteralView::String(_), _) => invalid("Can only add strings to strings"),
    }
}

/// `left - right`, on two numbers only.
pub open spec fn sub_spec(left: LiteralView, right: LiteralView) -> Result<
    OutcomeView,
    ConstantErrorView,
> {
    match (left, right) {
        (LiteralView::Number(n), LiteralView::Number(m)) => Ok(
            OutcomeView::Arithmetic(Arithmetic::Sub, n, m),
        ),
        (LiteralView::Number(_), _) => invalid("Can only subtract numbers from numbers"),
        (LiteralView::Bool(_), _) => invalid("Cannot subtract booleans"),
        (LiteralView::String(_), _) => invalid("Cannot subtract strings"),
    }
}

/// `left * right`: the product of two numbers, or a text repeated as often as
/// the whole part of a number says.
pub open spec fn mul_spec(left: LiteralView, right: LiteralView) -> Result<
    OutcomeView,
    ConstantErrorView,
> {
    match (left, right) {
        (LiteralView::Number(n), LiteralView::Number(m)) => Ok(
            OutcomeView::Arithmetic(Arithmetic::Mul, n, m),
        ),
        (LiteralView::Number(_), _) => invalid("Can only multiply numbers with numbers"),
        (LiteralView::Bool(_), _) => invalid("Cannot multiply booleans"),
        (LiteralView::String(s), LiteralView::Number(n)) => Ok(
            OutcomeView::Value(LiteralView::String(repeated(s, count(n) as nat))),
        ),
        (LiteralView::String(_), _) => invalid("Can only multiply strings with numbers"),
    }
}

/// `left / right`, on two numbers only.
pub open spec fn div_spec(left: LiteralView, right: LiteralView) -> Result<
    OutcomeView,
    ConstantErrorView,
> {
    match (left, right) {
        (LiteralView::Number(n), LiteralView::Number(m)) => Ok(
            OutcomeView::Arithmetic(Arithmetic::Div, n, m),
        ),
        (LiteralView::Number(_), _) => invalid("Can only divide numbers with number"),
        (LiteralView::Bool(_), _) => invalid("Cannot divide with booleans"),
        (LiteralView::String(_), _) => invalid("Cannot divide with strings"),
    }
}

/// `left % right`, on two numbers only.
pub open spec fn rem_spec(left: LiteralView, right: LiteralView) -> Result<
    OutcomeView,
    ConstantErrorView,
> {
    match (left, right) {
        (LiteralView::Number(n), LiteralView::Number(m)) => Ok(
            OutcomeView::Arithmetic(Arithmetic::Rem, n, m),
        ),
        (LiteralView::Number(_), _) => invalid("Can only mod numbers with numbers"),
        (LiteralView::Bool(_), _) => invalid("Cannot mod with booleans"),
        (LiteralView::String(_), _) => invalid("Cannot mod with strings"),
    }
}

/// Whether `left` comes before `right` in the order of their kind: numbers by
/// size, texts as in a dictionary, `false` before `true`. Values of two kinds
/// have no order.
pub open spec fn before_spec(left: LiteralView, right: LiteralView) -> Option<bool> {
    match (left, right) {
        (LiteralView::Number(n), LiteralView::Number(m)) => Some(less(n, m)),
        (LiteralView::String(s), LiteralView::String(z)) => Some(precedes(s, z)),
        (LiteralView::Bool(a), LiteralView::Bool(b)) => Some(!a && b),
        _ => None,
    }
}

/// Whether two values are equal: never, if they are of two kinds.
pub open spec fn equals_spec(left: LiteralView, right: LiteralView) -> bool {
    match (left, right) {
        (LiteralView::Number(n), LiteralView::Number(m)) => same(n, m),
        (LiteralView::String(s), LiteralView::String(z)) => s == z,
        (LiteralView::Bool(a), LiteralView::Bool(b)) => a == b,
        _ => false,
    }
}

fn refuse(why: &str) -> (r: Result<Outcome, ConstantError>)
    ensures
        outcome_view(r) == invalid(why),
{
    Err(ConstantError::InvalidOperation(String::from_str(why)))
}

impl Literal {
    /// Whether this value comes before the other in the order of their kind.
    pub fn before(&self, other: &Literal) -> (r: Option<bool>)
        ensures
            r == before_spec(self@, other@),
    {
        match (self, other) {
            (Literal::Number(n), Literal::Number(m)) => Some(is_less(*n, *m)),
            (Literal::String(s), Literal::String(z)) => Some(comes_before(s.as_str(), z.as_str())),
            (Literal::Bool(a), Literal::Bool(b)) => Some(!*a && *b),
            _ => None,
        }
    }

    /// Whether this value equals the other.
    pub fn equals(&self, other: &Literal) -> (r: bool)
        ensures
            r == equals_spec(self@, other@),
    {
        match (self, other) {
            (Literal::Number(n), Literal::Number(m)) => is_same(*n, *m),
            (Literal::String(s), Literal::String(z)) => *s == *z,
            (Literal::Bool(a), Literal::Bool(b)) => *a == *b,
            _ => false,
        }
    }

    /// `self + rhs`.
    pub fn add(self, rhs: Literal) -> (r: Result<Outcome, ConstantError>)
        ensures
            outcome_view(r) == add_spec(self@, rhs@),
    {
        match self {
            Literal::Number(n) => match rhs {
                Literal::Number(m) => Ok(Outcome::Arithmetic(Arithmetic::Add, n, m)),
                _ => refuse("Can only add numbers to numbers"),
            },
            Literal::Bool(_) => refuse("Cannot add booleans"),
            Literal::String(s) => match rhs {
                Literal::String(z) => Ok(Outcome::Value(Literal::String(s.concat(z.as_str())))),
                _ => refuse("Can only add strings to strings"),
            },
        }
    }

    /// `self - rhs`.
    pub fn sub(self, rhs: Literal) -> (r: Result<Outcome, ConstantError>)
        ensures
            outcome_view(r) == sub_spec(self@, rhs@),
    {
        match self {
            Literal::Number(n) => match rhs {
                Literal::Number(m) => Ok(Outcome::Arithmetic(Arithmetic::Sub, n, m)),
                _ => refuse("Can only subtract numbers from numbers"),
            },
            Literal::Bool(_) => refuse("Cannot subtract booleans"),
            Literal::String(_) => refuse("Cannot subtract strings"),
        }
    }

    /// `self * rhs`.
    pub fn mul(self, rhs: Literal) -> (r: Result<Outcome, ConstantError>)
        ensures
            outcome_view(r) == mul_spec(self@, rhs@),
    {
        match self {
            Literal::Number(n) => match rhs {
                Literal::Number(m) => Ok(Outcome::Arithmetic(Arithmetic::Mul, n, m)),
                _ => refuse("Can only multiply numbers with numbers"),
            },
            Literal::Bool(_) => refuse("Cannot multiply booleans"),
            Literal::String(s) => match rhs {
                Literal::Number(n) => Ok(
                    Outcome::Value(Literal::String(repeat(s.as_str(), count_of(n)))),
                ),
                _ => refuse("Can only multiply strings with numbers"),
            },
        }
    }

    /// `self / rhs`.
    pub fn div(self, rhs: Literal) -> (r: Result<Outcome, ConstantError>)
        ensures
            outcome_view(r) == div_spec(self@, rhs@),
    {
        match self {
            Literal::Number(n) => match rhs {
                Literal::Number(m) => Ok(Outcome::Arithmetic(Arithmetic::Div, n, m)),
                _ => refuse("Can only divide numbers with number"),
            },
            Literal::Bool(_) => refuse("Cannot divide with booleans"),
            Literal::String(_) => refuse("Cannot divide with strings"),
        }
    }

    /// `self % rhs`.
    pub fn rem(self, rhs: Literal) -> (r: Result<Outcome, ConstantError>)
        ensures
            outcome_view(r) == rem_spec(self@, rhs@),
    {
        match self {
            Literal::Number(n) => match rhs {
                Literal::Number(m) => Ok(Outcome::Arithmetic(Arithmetic::Rem, n, m)),
                _ => refuse("Can only mod numbers with numbers"),
            },
            Literal::Bool(_) => refuse("Cannot mod with booleans"),
            Literal::String(_) => refuse("Cannot mod with strings"),
        }
    }
}

} // verus!
