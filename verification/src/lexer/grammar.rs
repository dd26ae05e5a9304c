//! The tokens of a source text, over mathematical values.
//!
//! A source is a sequence of characters whose last character is the one
//! that ends the input. That character may also stand earlier: the input
//! then ends there.

use crate::error::ConstantErrorView;
use crate::lexer::chars::{
    belongs, digit, lemma_run_end, lemma_run_end_inside, letter, run_end, whitespace, Class, END,
};
use crate::lexer::token::{LiteralView, TokenType, TokenView};
use vstd::prelude::*;

verus! {

/// The characters of a text as a source: with the character that ends the
/// input behind them, unless the text ends in it.
pub open spec fn terminated(text: Seq<char>) -> Seq<char> {
    if text.len() > 0 && text.last() == END {
        text
    } else {
        text.push(END)
    }
}

/// Whether the sequence is a source, and the position one in it.
pub open spec fn well_formed(source: Seq<char>, pos: int) -> bool {
    &&& 0 <= pos < source.len()
    &&& source.last() == END
}

/// Whether a comment starts at the position: two slashes.
pub open spec fn comment_at(source: Seq<char>, pos: int) -> bool {
    &&& 0 <= pos
    &&& pos + 1 < source.len()
    &&& source[pos] == '/'
    &&& source[pos + 1] == '/'
}

/// The first position from `pos` on that is neither in white space nor in a
/// comment. A comment runs from its two slashes to the end of its line.
pub open spec fn skip(source: Seq<char>, pos: int) -> int
    decreases source.len() - pos,
{
    if comment_at(source, pos) {
        proof {
            lemma_run_end(source, pos + 1, Class::Comment);
        }
        skip(source, run_end(source, pos + 1, Class::Comment))
    } else if 0 <= pos < source.len() && belongs(Class::Blank, source[pos]) {
        proof {
            lemma_run_end(source, pos + 1, Class::Blank);
        }
        skip(source, run_end(source, pos, Class::Blank))
    } else {
        pos
    }
}

/// A token without a value.
pub open spec fn plain(token_type: TokenType, lexeme: Seq<char>) -> TokenView {
    TokenView { token_type, lexeme, literal: None }
}

/// The token that ends the input.
pub open spec fn eof() -> TokenView {
    plain(TokenType::EOF, Seq::empty())
}

/// The kind of token that a word is: that of the keyword, or an identifier.
pub open spec fn keyword(word: Seq<char>) -> TokenType {
    if word == "true"@ || word == "false"@ {
        TokenType::Bool
    } else if word == "print"@ {
        TokenType::Print
    } else if word == "dup"@ {
        TokenType::Dup
    } else if word == "swap"@ {
        TokenType::Swap
    } else if word == "drop"@ {
        TokenType::Drop
    } else if word == "bind"@ {
        TokenType::Bind
    } else if word == "if"@ {
        TokenType::If
    } else if word == "elif"@ {
        TokenType::Elif
    } else if word == "else"@ {
        TokenType::Else
    } else if word == "while"@ {
        TokenType::While
    } else if word == "proc"@ {
        TokenType::Proc
    } else if word == "call"@ {
        TokenType::Call
    } else if word == "do"@ {
        TokenType::Do
    } else if word == "end"@ {
        TokenType::End
    } else {
        TokenType::Ident
    }
}

/// The value that a word carries: a truth value for `true` and `false`.
pub open spec fn truth(word: Seq<char>) -> Option<LiteralView> {
    if word == "true"@ {
        Some(LiteralView::Bool(true))
    } else if word == "false"@ {
        Some(LiteralView::Bool(false))
    } else {
        None
    }
}

/// The token of a word.
pub open spec fn word_token(word: Seq<char>) -> TokenView {
    TokenView { token_type: keyword(word), lexeme: word, literal: truth(word) }
}

/// The complaint about a fragment that starts no token.
pub open spec fn stray(fragment: Seq<char>, at: int) -> Result<TokenView, ConstantErrorView> {
    Err(ConstantErrorView::InvalidString(fragment, at as usize))
}

/// The token that starts at `p`, where neither white space nor a comment
/// starts, and the position behind it; or the complaint, and the position
/// at which the lexer gives up.
///
/// - `+ - * / %` are tokens of one character.
/// - `>` and `<` are tokens if white space or the end of the input follows,
///   and with `=` behind them they are `>=` and `<=`. `=` and `!` are tokens
///   only as `==` and `!=`. Anything else behind one of the four is a stray
///   fragment of two characters.
/// - A number is a run of digits, then, if a dot follows, the dot and the
///   run of digits behind it. Its value is not worked out here: the token
///   carries the text.
/// - A string runs from one double quote to the next. Its value is what
///   stands between them, as it stands. If the input ends first, the string
///   is not terminated.
/// - A word is a Latin letter and the run of letters, digits and
///   underscores behind it.
/// - The character that ends the input gives the token that ends it, and is
///   not passed.
/// - Any other character is a stray fragment.
pub open spec fn scan(source: Seq<char>, p: int) -> (int, Result<TokenView, ConstantErrorView>) {
    let c = source[p];
    let d = source[p + 1];
    if c == '+' {
        (p + 1, Ok(plain(TokenType::Plus, seq![c])))
    } else if c == '-' {
        (p + 1, Ok(plain(TokenType::Minus, seq![c])))
    } else if c == '*' {
        (p + 1, Ok(plain(TokenType::Asterisk, seq![c])))
    } else if c == '/' {
        (p + 1, Ok(plain(TokenType::Slash, seq![c])))
    } else if c == '%' {
        (p + 1, Ok(plain(TokenType::Percent, seq![c])))
    } else if c == '>' {
        if d == '=' {
            (p + 2, Ok(plain(TokenType::GTEq, seq![c, d])))
        } else if whitespace(d) || d == END {
            (p + 1, Ok(plain(TokenType::GT, seq![c])))
        } else {
            (p + 1, stray(seq![c, d], p + 1))
        }
    } else if c == '<' {
        if d == '=' {
            (p + 2, Ok(plain(TokenType::LTEq, seq![c, d])))
        } else if whitespace(d) || d == END {
            (p + 1, Ok(plain(TokenType::LT, seq![c])))
        } else {
            (p + 1, stray(seq![c, d], p))
        }
    } else if c == '=' {
        if d == '=' {
            (p + 2, Ok(plain(TokenType::Eq, seq![c, d])))
        } else {
            (p + 1, stray(seq![c, d], p))
        }
    } else if c == '!' {
        if d == '=' {
            (p + 2, Ok(plain(TokenType::NotEq, seq![c, d])))
        } else {
            (p + 1, stray(seq![c, d], p))
        }
    } else if digit(c) {
        let whole_end = run_end(source, p, Class::Digit);
        let end = if source[whole_end] == '.' {
            run_end(source, whole_end + 1, Class::Digit)
        } else {
            whole_end
        };
        (end, Ok(plain(TokenType::Number, source.subrange(p, end))))
    } else if c == '"' {
        let end = run_end(source, p + 1, Class::Quoted);
        if source[end] == '"' {
            (
                end + 1,
                Ok(
                    TokenView {
                        token_type: TokenType::String,
                        lexeme: source.subrange(p, end + 1),
                        literal: Some(LiteralView::String(source.subrange(p + 1, end))),
                    },
                ),
            )
        } else {
            (end, Err(ConstantErrorView::StringNotTerminated))
        }
    } else if letter(c) {
        let end = run_end(source, p + 1, Class::Word);
        (end, Ok(word_token(source.subrange(p, end))))
    } else if c == END {
        (p, Ok(eof()))
    } else {
        (p, stray(seq![c], p))
    }
}

/// The next token from `pos` on, behind white space and comments, and the
/// position behind it.
pub open spec fn next_token(source: Seq<char>, pos: int) -> (
    int,
    Result<TokenView, ConstantErrorView>,
) {
    scan(source, skip(source, pos))
}

/// Skipping stays within the source and never goes back.
pub proof fn lemma_skip(source: Seq<char>, pos: int)
    requires
        well_formed(source, pos),
    ensures
        pos <= skip(source, pos),
        well_formed(source, skip(source, pos)),
        !comment_at(source, skip(source, pos)),
        !belongs(Class::Blank, source[skip(source, pos)]),
    decreases source.len() - pos,
{
    if comment_at(source, pos) {
        lemma_run_end(source, pos + 1, Class::Comment);
        lemma_run_end_inside(source, pos + 1, Class::Comment);
        lemma_skip(source, run_end(source, pos + 1, Class::Comment));
    } else if belongs(Class::Blank, source[pos]) {
        lemma_run_end(source, pos + 1, Class::Blank);
        lemma_run_end_inside(source, pos, Class::Blank);
        lemma_skip(source, run_end(source, pos, Class::Blank));
    }
}

/// A token leaves the lexer within the source. Every token but the one
/// that ends the input is made of at least one character.
pub proof fn lemma_scan(source: Seq<char>, p: int)
    requires
        well_formed(source, p),
    ensures
        p <= scan(source, p).0,
        well_formed(source, scan(source, p).0),
        scan(source, p).1 is Ok && scan(source, p).1->Ok_0.token_type != TokenType::EOF ==> p
            < scan(source, p).0,
        scan(source, p).1 is Ok && scan(source, p).1->Ok_0.token_type == TokenType::EOF
            ==> source[p] == END,
{
    let c = source[p];
    if digit(c) {
        lemma_run_end_inside(source, p, Class::Digit);
        let whole_end = run_end(source, p, Class::Digit);
        lemma_run_end(source, p + 1, Class::Digit);
        if source[whole_end] == '.' {
            lemma_run_end_inside(source, whole_end + 1, Class::Digit);
        }
    } else if c == '"' {
        lemma_run_end_inside(source, p + 1, Class::Quoted);
        lemma_run_end(source, p + 1, Class::Quoted);
    } else if letter(c) {
        lemma_run_end_inside(source, p + 1, Class::Word);
        lemma_keyword_is_no_end(source.subrange(p, run_end(source, p + 1, Class::Word)));
    }
}

/// No word is the token that ends the input.
pub proof fn lemma_keyword_is_no_end(word: Seq<char>)
    ensures
        keyword(word) != TokenType::EOF,
{
}

/// The tokens from `pos` on, up to and with the one that ends the input,
/// and the position of the lexer behind them; or the first complaint, and
/// the position at which the lexer gives up.
pub open spec fn tokens(source: Seq<char>, pos: int) -> (
    int,
    Result<Seq<TokenView>, ConstantErrorView>,
)
    decreases source.len() - pos,
    when well_formed(source, pos)
{
    let (next, first) = next_token(source, pos);
    match first {
        Err(complaint) => (next, Err(complaint)),
        Ok(token) => if token.token_type == TokenType::EOF {
            (next, Ok(seq![token]))
        } else {
            proof {
                lemma_skip(source, pos);
                lemma_scan(source, skip(source, pos));
            }
            let (end, rest) = tokens(source, next);
            match rest {
                Err(complaint) => (end, Err(complaint)),
                Ok(others) => (end, Ok(seq![token] + others)),
            }
        },
    }
}

/// Tokens that were found already, put before those that follow.
pub open spec fn preceded(
    found: Seq<TokenView>,
    rest: (int, Result<Seq<TokenView>, ConstantErrorView>),
) -> (int, Result<Seq<TokenView>, ConstantErrorView>) {
    match rest.1 {
        Ok(others) => (rest.0, Ok(found + others)),
        Err(complaint) => (rest.0, Err(complaint)),
    }
}

/// The tokens of a source end with the token that ends the input, and hold
/// no other such token.
pub proof fn law_tokens_end_once(source: Seq<char>, pos: int)
    requires
        well_formed(source, pos),
        tokens(source, pos).1 is Ok,
    ensures
        ({
            let found = tokens(source, pos).1->Ok_0;
            &&& found.len() > 0
            &&& found.last().token_type == TokenType::EOF
            &&& forall|i: int|
                0 <= i < found.len() - 1 ==> (#[trigger] found[i]).token_type != TokenType::EOF
        }),
    decreases source.len() - pos,
{
    let (next, first) = next_token(source, pos);
    let token = first->Ok_0;
    if token.token_type != TokenType::EOF {
        lemma_skip(source, pos);
        lemma_scan(source, skip(source, pos));
        law_tokens_end_once(source, next);
        let found = tokens(source, pos).1->Ok_0;
        assert forall|i: int| 0 <= i < found.len() - 1 implies (#[trigger] found[i]).token_type
            != TokenType::EOF by {}
    }
}

} // verus!
