//! The lexer: from source text to tokens.

pub mod chars;
pub mod grammar;
pub mod token;

use crate::error::{ConstantError, ConstantErrorView};
use crate::text::{chars_of, string_of};
use chars::{
    belongs, is_digit, is_letter, is_of, lemma_run_end, lemma_run_end_inside, run_end, Class, END,
};
use grammar::{
    comment_at, lemma_scan, lemma_skip, plain, preceded, skip, stray, terminated, well_formed,
    word_token,
};
pub use token::{
    Arithmetic, Literal, LiteralView, Outcome, OutcomeView, Token, TokenType, TokenView,
};
use vstd::prelude::*;

verus! {

/// A source text and a position in it.
pub struct Lexer {
    source: Vec<char>,
    current_pos: usize,
}

/// The mathematical value of a [`Lexer`].
pub struct LexerView {
    /// The characters of the source, the last of which ends the input.
    pub source: Seq<char>,
    /// The position of the character that the lexer looks at.
    pub pos: int,
}

impl LexerView {
    /// The character that the lexer looks at.
    pub open spec fn current(self) -> char {
        self.source[self.pos]
    }

    /// The same lexer at another position.
    pub open spec fn at(self, pos: int) -> LexerView {
        LexerView { pos, ..self }
    }

    /// The position behind the current one, or the current one where it is
    /// the last.
    pub open spec fn following(self) -> int {
        if self.pos + 1 < self.source.len() {
            self.pos + 1
        } else {
            self.pos
        }
    }
}

impl View for Lexer {
    type V = LexerView;

    closed spec fn view(&self) -> LexerView {
        LexerView { source: self.source@, pos: self.current_pos as int }
    }
}

/// The value of a token or complaint that the lexer returned.
pub open spec fn token_view(r: Result<Token, ConstantError>) -> Result<TokenView, ConstantErrorView> {
    match r {
        Ok(token) => Ok(token@),
        Err(complaint) => Err(complaint@),
    }
}

/// The values of a sequence of tokens.
pub open spec fn tokens_view(tokens: Seq<Token>) -> Seq<TokenView> {
    tokens.map_values(|token: Token| token@)
}

/// The value of the tokens or the complaint that the lexer returned.
pub open spec fn tokenized_view(r: Result<Vec<Token>, ConstantError>) -> Result<
    Seq<TokenView>,
    ConstantErrorView,
> {
    match r {
        Ok(tokens) => Ok(tokens_view(tokens@)),
        Err(complaint) => Err(complaint@),
    }
}

impl Lexer {
    #[verifier::type_invariant]
    spec fn inv(self) -> bool {
        well_formed(self.source@, self.current_pos as int)
    }

    /// A lexer at the start of the text.
    pub fn new<'a>(source: &'a str) -> (lexer: Self)
        ensures
            lexer@ == (LexerView { source: terminated(source@), pos: 0 }),
            well_formed(lexer@.source, lexer@.pos),
    {
        let mut source = chars_of(source);
        let n: usize = source.len();
        if n == 0 || source[n - 1] != END {
            source.push(END);
        }
        Self { source, current_pos: 0 }
    }

    /// The character that the lexer looks at.
    pub fn current_char(&self) -> (c: char)
        ensures
            c == self@.current(),
            well_formed(self@.source, self@.pos),
    {
        proof {
            use_type_invariant(self);
        }
        self.source[self.current_pos]
    }

    /// The position of the character that the lexer looks at.
    pub fn current_pos(&self) -> (pos: usize)
        ensures
            pos == self@.pos,
            well_formed(self@.source, self@.pos),
    {
        proof {
            use_type_invariant(self);
        }
        self.current_pos
    }

    /// Moves to the next character, unless the lexer is at the last.
    pub fn next(&mut self)
        ensures
            final(self)@ == old(self)@.at(old(self)@.following()),
    {
        proof {
            use_type_invariant(&*self);
        }
        if self.current_pos < self.source.len() - 1 {
            self.current_pos += 1;
        }
    }

    /// The character behind the current one, or the one that ends the input
    /// where there is none.
    pub fn peek(&self) -> (c: char)
        ensures
            c == if self@.pos + 1 < self@.source.len() {
                self@.source[self@.pos + 1]
            } else {
                END
            },
    {
        proof {
            use_type_invariant(self);
        }
        if self.current_pos < self.source.len() - 1 {
            self.source[self.current_pos + 1]
        } else {
            END
        }
    }

    /// Passes the run of characters of a class that starts here.
    fn pass(&mut self, class: Class)
        ensures
            final(self)@ == old(self)@.at(run_end(old(self)@.source, old(self)@.pos, class)),
    {
        proof {
            use_type_invariant(&*self);
            lemma_run_end_inside(self.source@, self.current_pos as int, class);
        }
        let ghost start = self.current_pos as int;
        while is_of(&class, self.source[self.current_pos])
            invariant
                well_formed(self.source@, self.current_pos as int),
                self.source@ == old(self)@.source,
                start <= self.current_pos,
                run_end(self.source@, start, class) == run_end(
                    self.source@,
                    self.current_pos as int,
                    class,
                ),
            decreases self.source.len() - self.current_pos,
        {
            self.current_pos += 1;
        }
    }

    /// Passes the white space that starts here, and tells whether there was
    /// any.
    pub fn skip_whitespace(&mut self) -> (skipped: bool)
        ensures
            final(self)@ == old(self)@.at(run_end(old(self)@.source, old(self)@.pos, Class::Blank)),
            skipped == belongs(Class::Blank, old(self)@.current()),
    {
        proof {
            use_type_invariant(&*self);
        }
        let skipped = is_of(&Class::Blank, self.source[self.current_pos]);
        self.pass(Class::Blank);
        skipped
    }

    /// Passes the comment that starts here, up to the end of its line, and
    /// tells whether there was one.
    pub fn skip_comments(&mut self) -> (skipped: bool)
        ensures
            skipped == comment_at(old(self)@.source, old(self)@.pos),
            final(self)@ == old(self)@.at(
                if skipped {
                    run_end(old(self)@.source, old(self)@.pos + 1, Class::Comment)
                } else {
                    old(self)@.pos
                },
            ),
    {
        proof {
            use_type_invariant(&*self);
        }
        if self.current_char() == '/' && self.peek() == '/' {
            self.next();
            self.pass(Class::Comment);
            true
        } else {
            false
        }
    }

    /// Passes white space and comments until neither starts here.
    fn skip_all(&mut self)
        ensures
            final(self)@ == old(self)@.at(skip(old(self)@.source, old(self)@.pos)),
    {
        proof {
            use_type_invariant(&*self);
        }
        loop
            invariant
                well_formed(self.source@, self.current_pos as int),
                self.source@ == old(self)@.source,
                skip(self.source@, self.current_pos as int) == skip(
                    old(self)@.source,
                    old(self)@.pos,
                ),
            decreases self.source.len() - self.current_pos,
        {
            proof {
                lemma_run_end(self.source@, self.current_pos + 1, Class::Comment);
                lemma_run_end(self.source@, self.current_pos + 1, Class::Blank);
            }
            if !self.skip_comments() {
                if !self.skip_whitespace() {
                    return ;
                }
            }
        }
    }

    /// The text from `from` up to, not including, `to`.
    fn text(&self, from: usize, to: usize) -> (s: String)
        requires
            from <= to <= self@.source.len(),
        ensures
            s@ == self@.source.subrange(from as int, to as int),
    {
        string_of(&self.source, from, to)
    }

    /// Whether the characters from `from` up to `to` spell the word.
    fn spells(&self, from: usize, to: usize, word: &str) -> (r: bool)
        requires
            from <= to <= self@.source.len(),
        ensures
            r == (self@.source.subrange(from as int, to as int) == word@),
    {
        let n: usize = word.unicode_len();
        if to - from != n {
            return false;
        }
        let mut i: usize = 0;
        while i < n
            invariant
                i <= n,
                n == word@.len(),
                to - from == n,
                to <= self.source@.len(),
                forall|j: int| 0 <= j < i ==> self.source@[from + j] == word@[j],
            decreases n - i,
        {
            if self.source[from + i] != word.get_char(i) {
                return false;
            }
            i += 1;
        }
        assert(self.source@.subrange(from as int, to as int) =~= word@);
        true
    }

    /// The token of the word from `from` up to `to`.
    fn word(&self, from: usize, to: usize) -> (token: Token)
        requires
            from <= to <= self@.source.len(),
        ensures
            token@ == word_token(self@.source.subrange(from as int, to as int)),
    {
        let lexeme = self.text(from, to);
        if self.spells(from, to, "true") {
            Token::new(TokenType::Bool, lexeme, Some(Literal::Bool(true)))
        } else if self.spells(from, to, "false") {
            Token::new(TokenType::Bool, lexeme, Some(Literal::Bool(false)))
        } else {
            let kind = if self.spells(from, to, "print") {
                TokenType::Print
            } else if self.spells(from, to, "dup") {
                TokenType::Dup
            } else if self.spells(from, to, "swap") {
                TokenType::Swap
            } else if self.spells(from, to, "drop") {
                TokenType::Drop
            } else if self.spells(from, to, "bind") {
                TokenType::Bind
            } else if self.spells(from, to, "if") {
                TokenType::If
            } else if self.spells(from, to, "elif") {
                TokenType::Elif
            } else if self.spells(from, to, "else") {
                TokenType::Else
            } else if self.spells(from, to, "while") {
                TokenType::While
            } else if self.spells(from, to, "proc") {
                TokenType::Proc
            } else if self.spells(from, to, "call") {
                TokenType::Call
            } else if self.spells(from, to, "do") {
                TokenType::Do
            } else if self.spells(from, to, "end") {
                TokenType::End
            } else {
                TokenType::Ident
            };
            Token::new(kind, lexeme, None)
        }
    }

    /// The token made of the characters from `from` up to `to`, without a
    /// value.
    fn token(&self, kind: TokenType, from: usize, to: usize) -> (r: Result<Token, ConstantError>)
        requires
            from <= to <= self@.source.len(),
        ensures
            token_view(r) == Ok::<TokenView, ConstantErrorView>(
                plain(kind, self@.source.subrange(from as int, to as int)),
            ),
    {
        Ok(Token::new(kind, self.text(from, to), None))
    }

    /// The complaint about the characters from `from` up to `to`.
    fn complaint(&self, from: usize, to: usize, at: usize) -> (r: Result<Token, ConstantError>)
        requires
            from <= to <= self@.source.len(),
        ensures
            token_view(r) == stray(self@.source.subrange(from as int, to as int), at as int),
    {
        Err(ConstantError::InvalidString(self.text(from, to), at))
    }

    /// A comparison operator: the character here with `=` behind it is the
    /// token `double`. Alone it is the token `single`, if there is one and
    /// white space or the end of the input follows. Anything else is a stray
    /// fragment, placed at the operator, or behind it if `behind` is set.
    fn operator(&mut self, double: TokenType, single: Option<TokenType>, behind: bool) -> (r: Result<
        Token,
        ConstantError,
    >)
        requires
            old(self)@.current() != END,
        ensures
            final(self)@.source == old(self)@.source,
            ({
                let source = old(self)@.source;
                let p = old(self)@.pos;
                let c = source[p];
                let d = source[p + 1];
                (final(self)@.pos, token_view(r)) == if d == '=' {
                    (p + 2, Ok::<TokenView, ConstantErrorView>(plain(double, seq![c, d])))
                } else if single is Some && (chars::whitespace(d) || d == END) {
                    (p + 1, Ok::<TokenView, ConstantErrorView>(plain(single->Some_0, seq![c])))
                } else {
                    (
                        p + 1,
                        stray(
                            seq![c, d],
                            if behind {
                                p + 1
                            } else {
                                p
                            },
                        ),
                    )
                }
            }),
    {
        proof {
            use_type_invariant(&*self);
        }
        let p: usize = self.current_pos;
        let n: usize = self.source.len();
        assert(self.source@.subrange(p as int, p + 1) =~= seq![self.source@[p as int]]);
        assert(self.source@.subrange(p as int, p + 2) =~= seq![
            self.source@[p as int],
            self.source@[p + 1],
        ]);
        self.next();
        let d = self.current_char();
        if d == '=' {
            self.next();
            return self.token(double, p, p + 2);
        }
        match single {
            Some(kind) => {
                if d.is_whitespace() || d == END {
                    return self.token(kind, p, p + 1);
                }
            },
            None => {},
        }
        self.complaint(
            p,
            p + 2,
            if behind {
                p + 1
            } else {
                p
            },
        )
    }

    /// The next token, behind white space and comments.
    ///
    /// A number token carries its text and no value: working out the value
    /// is left to the host.
    pub fn next_token(&mut self) -> (r: Result<Token, ConstantError>)
        ensures
            final(self)@.source == old(self)@.source,
            (final(self)@.pos, token_view(r)) == grammar::next_token(
                old(self)@.source,
                old(self)@.pos,
            ),
    {
        self.skip_all();
        proof {
            use_type_invariant(&*self);
        }
        let p: usize = self.current_pos;
        let n: usize = self.source.len();
        let c = self.current_char();
        let ghost source = self.source@;
        assert(source.subrange(p as int, p + 1) =~= seq![c]);
        if c == '+' {
            self.next();
            self.token(TokenType::Plus, p, p + 1)
        } else if c == '-' {
            self.next();
            self.token(TokenType::Minus, p, p + 1)
        } else if c == '*' {
            self.next();
            self.token(TokenType::Asterisk, p, p + 1)
        } else if c == '/' {
            self.next();
            self.token(TokenType::Slash, p, p + 1)
        } else if c == '%' {
            self.next();
            self.token(TokenType::Percent, p, p + 1)
        } else if c == '>' {
            self.operator(TokenType::GTEq, Some(TokenType::GT), true)
        } else if c == '<' {
            self.operator(TokenType::LTEq, Some(TokenType::LT), false)
        } else if c == '=' {
            self.operator(TokenType::Eq, None, false)
        } else if c == '!' {
            self.operator(TokenType::NotEq, None, false)
        } else if is_digit(c) {
            proof {
                lemma_run_end_inside(source, p as int, Class::Digit);
            }
            self.pass(Class::Digit);
            if self.current_char() == '.' {
                proof {
                    lemma_run_end_inside(source, self.current_pos + 1, Class::Digit);
                }
                self.next();
                self.pass(Class::Digit);
            }
            self.token(TokenType::Number, p, self.current_pos)
        } else if c == '"' {
            proof {
                lemma_run_end_inside(source, p + 1, Class::Quoted);
            }
            self.next();
            self.pass(Class::Quoted);
            let end: usize = self.current_pos;
            if self.current_char() != '"' {
                return Err(ConstantError::StringNotTerminated);
            }
            let token = Token::new(
                TokenType::String,
                self.text(p, end + 1),
                Some(Literal::String(self.text(p + 1, end))),
            );
            self.next();
            Ok(token)
        } else if is_letter(c) {
            proof {
                lemma_run_end_inside(source, p + 1, Class::Word);
            }
            self.next();
            self.pass(Class::Word);
            Ok(self.word(p, self.current_pos))
        } else if c == END {
            Ok(Token::eof())
        } else {
            self.complaint(p, p + 1, p)
        }
    }

    /// The tokens from here on, up to and with the one that ends the input.
    pub fn tokenize(&mut self) -> (r: Result<Vec<Token>, ConstantError>)
        ensures
            final(self)@.source == old(self)@.source,
            (final(self)@.pos, tokenized_view(r)) == grammar::tokens(
                old(self)@.source,
                old(self)@.pos,
            ),
    {
        let mut tokens: Vec<Token> = Vec::new();
        proof {
            use_type_invariant(&*self);
        }
        loop
            invariant
                well_formed(self.source@, self.current_pos as int),
                self.source@ == old(self)@.source,
                grammar::tokens(old(self)@.source, old(self)@.pos) == preceded(
                    tokens_view(tokens@),
                    grammar::tokens(self.source@, self.current_pos as int),
                ),
            decreases self.source.len() - self.current_pos,
        {
            let ghost pos = self.current_pos as int;
            let ghost found = tokens_view(tokens@);
            proof {
                lemma_skip(self.source@, pos);
                lemma_scan(self.source@, skip(self.source@, pos));
            }
            match self.next_token() {
                Err(complaint) => {
                    return Err(complaint);
                },
                Ok(token) => {
                    let last = token.token_type == TokenType::EOF;
                    tokens.push(token);
                    proof {
                        use_type_invariant(&*self);
                        assert(tokens_view(tokens@) =~= found.push(token@));
                        if last {
                            assert(found + seq![token@] =~= found.push(token@));
                        } else {
                            let rest = grammar::tokens(self.source@, self.current_pos as int);
                            match rest.1 {
                                Ok(others) => {
                                    assert(found + (seq![token@] + others) =~= found.push(token@)
                                        + others);
                                },
                                Err(_) => {},
                            }
                        }
                    }
                    if last {
                        return Ok(tokens);
                    }
                },
            }
        }
    }
}

} // verus!
