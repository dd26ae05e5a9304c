use crate::lexer::TokenType;
use vstd::prelude::*;

verus! {

/// Everything that can go wrong, from the command line down to a running
/// program.
#[derive(Debug)]
pub enum ConstantError {
    /// No source file was named.
    NoSourceFile,
    /// The named source file could not be read.
    SourceFileNotFound(String),
    /// More than one argument was given.
    TooManyArgs,
    /// The input ended inside a string literal.
    StringNotTerminated,
    /// A fragment of the input that starts no token, with its position.
    InvalidString(String, usize),
    /// An operation found fewer values on the stack than it takes.
    InvalidStackAmount(String, usize),
    /// An operation met operands it is not defined on.
    InvalidOperation(String),
    /// The parser met a token of this kind where it fits no rule.
    UnexpectedToken(TokenType),
    /// A name was pushed that is bound to no value.
    IdentDoesNotExist(String),
    /// A name was called that is no procedure.
    ProcDoesNotExist(String),
}

/// The mathematical value of a [`ConstantError`]: texts are sequences of
/// characters.
pub enum ConstantErrorView {
    NoSourceFile,
    SourceFileNotFound(Seq<char>),
    TooManyArgs,
    StringNotTerminated,
    InvalidString(Seq<char>, usize),
    InvalidStackAmount(Seq<char>, usize),
    InvalidOperation(Seq<char>),
    UnexpectedToken(TokenType),
    IdentDoesNotExist(Seq<char>),
    ProcDoesNotExist(Seq<char>),
}

impl View for ConstantError {
    type V = ConstantErrorView;

    open spec fn view(&self) -> ConstantErrorView {
        match self {
            ConstantError::NoSourceFile => ConstantErrorView::NoSourceFile,
            ConstantError::SourceFileNotFound(path) => ConstantErrorView::SourceFileNotFound(path@),
            ConstantError::TooManyArgs => ConstantErrorView::TooManyArgs,
            ConstantError::StringNotTerminated => ConstantErrorView::StringNotTerminated,
            ConstantError::InvalidString(text, at) => ConstantErrorView::InvalidString(text@, *at),
            ConstantError::InvalidStackAmount(action, needed) => ConstantErrorView::InvalidStackAmount(
                action@,
                *needed,
            ),
            ConstantError::InvalidOperation(why) => ConstantErrorView::InvalidOperation(why@),
            ConstantError::UnexpectedToken(kind) => ConstantErrorView::UnexpectedToken(*kind),
            ConstantError::IdentDoesNotExist(name) => ConstantErrorView::IdentDoesNotExist(name@),
            ConstantError::ProcDoesNotExist(name) => ConstantErrorView::ProcDoesNotExist(name@),
        }
    }
}

} // verus!
