use constant::{ConstantError, Lexer, Literal, Token, TokenType};

/// Works out the value of a number token, as a host does.
fn read(mut token: Token) -> Token {
    if token.token_type == TokenType::Number {
        let number: f32 = token.lexeme.parse().unwrap();
        token.literal = Some(Literal::Number(number.to_bits()));
    }
    token
}

fn kinds(source: &str) -> Vec<TokenType> {
    Lexer::new(source)
        .tokenize()
        .unwrap()
        .iter()
        .map(|token| token.token_type)
        .collect()
}

fn lexemes(source: &str) -> Vec<String> {
    Lexer::new(source)
        .tokenize()
        .unwrap()
        .iter()
        .map(|token| token.lexeme.clone())
        .collect()
}

#[test]
fn lexer_next() {
    let mut l = Lexer::new("ah");

    assert!(l.current_char() == 'a');
    l.next();
    assert!(l.current_char() == 'h');
    l.next();
    assert!(l.current_char() == '\0');
    l.next();
    assert!(l.current_char() == '\0');
}

#[test]
fn lexer_next_token_number() -> Result<(), ConstantError> {
    let mut l = Lexer::new("123.456 123");

    assert!(read(l.next_token()?).literal.unwrap() == Literal::Number(123.456f32.to_bits()));
    assert!(read(l.next_token()?).literal.unwrap() == Literal::Number(123.0f32.to_bits()));
    assert!(l.next_token()?.token_type == TokenType::EOF);

    Ok(())
}

#[test]
fn lexer_next_token_string() -> Result<(), ConstantError> {
    let mut l = Lexer::new("\"this is a test string\" \"this is another test string\"");

    assert!(l.next_token()?.literal.unwrap() == Literal::String("this is a test string".into()));
    assert!(
        l.next_token()?.literal.unwrap() == Literal::String("this is another test string".into())
    );
    assert!(l.next_token()?.token_type == TokenType::EOF);

    Ok(())
}

#[test]
fn lexer_next_token_bool() -> Result<(), ConstantError> {
    let mut l = Lexer::new("true false true");

    assert!(l.next_token()?.literal.unwrap() == Literal::Bool(true));
    assert!(l.next_token()?.literal.unwrap() == Literal::Bool(false));
    assert!(l.next_token()?.literal.unwrap() == Literal::Bool(true));
    assert!(l.next_token()?.token_type == TokenType::EOF);

    Ok(())
}

#[test]
fn lexer_next_token_built_in() -> Result<(), ConstantError> {
    let mut l = Lexer::new("print dup dup print");

    assert!(l.next_token()?.token_type == TokenType::Print);
    assert!(l.next_token()?.token_type == TokenType::Dup);
    assert!(l.next_token()?.token_type == TokenType::Dup);
    assert!(l.next_token()?.token_type == TokenType::Print);
    assert!(l.next_token()?.token_type == TokenType::EOF);

    Ok(())
}

#[test]
fn lexer_skip_comments() -> Result<(), ConstantError> {
    let mut l = Lexer::new("// this is a comment");

    assert!(l.next_token()?.token_type == TokenType::EOF);

    Ok(())
}

#[test]
fn lexer_number_token_carries_text_only() {
    let mut l = Lexer::new("123.456");
    let token = l.next_token().unwrap();
    assert_eq!(token.token_type, TokenType::Number);
    assert_eq!(token.lexeme, "123.456");
    assert_eq!(token.literal, None);
}

#[test]
fn lexer_number_forms() {
    assert_eq!(lexemes("7 0.5 12. 007"), vec!["7", "0.5", "12.", "007", ""]);
    assert_eq!(
        kinds("7 0.5 12. 007"),
        vec![
            TokenType::Number,
            TokenType::Number,
            TokenType::Number,
            TokenType::Number,
            TokenType::EOF
        ]
    );
}

#[test]
fn lexer_second_dot_is_stray() {
    let mut l = Lexer::new("3.14.15");
    assert_eq!(l.next_token().unwrap().lexeme, "3.14");
    assert!(matches!(
        l.next_token(),
        Err(ConstantError::InvalidString(fragment, 4)) if fragment == "."
    ));
}

#[test]
fn lexer_minus_is_an_operator_before_a_number() {
    assert_eq!(
        kinds("-5"),
        vec![TokenType::Minus, TokenType::Number, TokenType::EOF]
    );
}

#[test]
fn lexer_single_character_operators() {
    assert_eq!(
        kinds("+ - * / %"),
        vec![
            TokenType::Plus,
            TokenType::Minus,
            TokenType::Asterisk,
            TokenType::Slash,
            TokenType::Percent,
            TokenType::EOF
        ]
    );
    assert_eq!(lexemes("+-*/%"), vec!["+", "-", "*", "/", "%", ""]);
}

#[test]
fn lexer_comparison_operators() {
    assert_eq!(
        kinds("> >= < <= == !="),
        vec![
            TokenType::GT,
            TokenType::GTEq,
            TokenType::LT,
            TokenType::LTEq,
            TokenType::Eq,
            TokenType::NotEq,
            TokenType::EOF
        ]
    );
    assert_eq!(
        lexemes("> >= < <= == !="),
        vec![">", ">=", "<", "<=", "==", "!=", ""]
    );
}

#[test]
fn lexer_greater_at_end_of_input() {
    assert_eq!(kinds("1 2 >"), vec![
        TokenType::Number,
        TokenType::Number,
        TokenType::GT,
        TokenType::EOF
    ]);
    assert_eq!(kinds("<"), vec![TokenType::LT, TokenType::EOF]);
}

#[test]
fn lexer_greater_needs_space_behind_it() {
    let mut l = Lexer::new("1 >2");
    l.next_token().unwrap();
    assert!(matches!(
        l.next_token(),
        Err(ConstantError::InvalidString(fragment, 3)) if fragment == ">2"
    ));
    assert_eq!(l.current_pos(), 3);
}

#[test]
fn lexer_less_needs_space_behind_it() {
    let mut l = Lexer::new("1 <2");
    l.next_token().unwrap();
    assert!(matches!(
        l.next_token(),
        Err(ConstantError::InvalidString(fragment, 2)) if fragment == "<2"
    ));
    assert_eq!(l.current_pos(), 3);
}

#[test]
fn lexer_lone_equals_and_bang() {
    assert!(matches!(
        Lexer::new("= 1").next_token(),
        Err(ConstantError::InvalidString(fragment, 0)) if fragment == "= "
    ));
    assert!(matches!(
        Lexer::new("  !x").next_token(),
        Err(ConstantError::InvalidString(fragment, 2)) if fragment == "!x"
    ));
    assert!(matches!(
        Lexer::new("=").next_token(),
        Err(ConstantError::InvalidString(fragment, 0)) if fragment == "=\0"
    ));
}

#[test]
fn lexer_unterminated_string() {
    assert!(matches!(
        Lexer::new("\"unterminated").tokenize(),
        Err(ConstantError::StringNotTerminated)
    ));
    assert!(matches!(
        Lexer::new("1 2 \"").tokenize(),
        Err(ConstantError::StringNotTerminated)
    ));
}

#[test]
fn lexer_string_is_taken_verbatim() {
    let mut l = Lexer::new("\"a\\n // b\"");
    let token = l.next_token().unwrap();
    assert_eq!(token.token_type, TokenType::String);
    assert_eq!(token.lexeme, "\"a\\n // b\"");
    assert_eq!(token.literal, Some(Literal::String("a\\n // b".into())));
    assert_eq!(l.next_token().unwrap().token_type, TokenType::EOF);
}

#[test]
fn lexer_empty_string() {
    let token = Lexer::new("\"\"").next_token().unwrap();
    assert_eq!(token.lexeme, "\"\"");
    assert_eq!(token.literal, Some(Literal::String(String::new())));
}

#[test]
fn lexer_keywords() {
    assert_eq!(
        kinds("true false print dup swap drop bind if elif else while proc call do end"),
        vec![
            TokenType::Bool,
            TokenType::Bool,
            TokenType::Print,
            TokenType::Dup,
            TokenType::Swap,
            TokenType::Drop,
            TokenType::Bind,
            TokenType::If,
            TokenType::Elif,
            TokenType::Else,
            TokenType::While,
            TokenType::Proc,
            TokenType::Call,
            TokenType::Do,
            TokenType::End,
            TokenType::EOF
        ]
    );
}

#[test]
fn lexer_identifiers() {
    assert_eq!(
        kinds("x printer do_ End and or a1_b2"),
        vec![
            TokenType::Ident,
            TokenType::Ident,
            TokenType::Ident,
            TokenType::Ident,
            TokenType::Ident,
            TokenType::Ident,
            TokenType::Ident,
            TokenType::EOF
        ]
    );
    assert_eq!(
        lexemes("x printer do_ End a1_b2"),
        vec!["x", "printer", "do_", "End", "a1_b2", ""]
    );
    let token = Lexer::new("count").next_token().unwrap();
    assert_eq!(token.literal, None);
}

#[test]
fn lexer_identifier_may_go_on_with_any_letter() {
    assert_eq!(lexemes("na\u{ef}ve"), vec!["na\u{ef}ve", ""]);
}

#[test]
fn lexer_underscore_starts_no_token() {
    assert!(matches!(
        Lexer::new("_x").next_token(),
        Err(ConstantError::InvalidString(fragment, 0)) if fragment == "_"
    ));
}

#[test]
fn lexer_stray_character() {
    let mut l = Lexer::new("1 # 2");
    l.next_token().unwrap();
    assert!(matches!(
        l.next_token(),
        Err(ConstantError::InvalidString(fragment, 2)) if fragment == "#"
    ));
    assert!(matches!(
        Lexer::new("1 # 2").tokenize(),
        Err(ConstantError::InvalidString(fragment, 2)) if fragment == "#"
    ));
}

#[test]
fn lexer_comment_runs_to_the_end_of_its_line() {
    assert_eq!(
        kinds("1 // 2 3\n4 // 5"),
        vec![TokenType::Number, TokenType::Number, TokenType::EOF]
    );
    assert_eq!(lexemes("1 // 2 3\n4 // 5"), vec!["1", "4", ""]);
    assert_eq!(kinds("8 / 2"), vec![
        TokenType::Number,
        TokenType::Slash,
        TokenType::Number,
        TokenType::EOF
    ]);
}

#[test]
fn lexer_white_space_of_every_sort_is_skipped() {
    assert_eq!(
        kinds(" \t\r\n1\u{a0}\u{2003}2 "),
        vec![TokenType::Number, TokenType::Number, TokenType::EOF]
    );
}

#[test]
fn lexer_tokenize_ends_with_one_eof() {
    for source in ["", "2 3 +", "2 3 +\n", "   ", "// only a comment", "x\0y"] {
        let found = kinds(source);
        assert_eq!(found.last(), Some(&TokenType::EOF), "{source:?}");
        assert_eq!(
            found.iter().filter(|kind| **kind == TokenType::EOF).count(),
            1,
            "{source:?}"
        );
    }
    assert_eq!(kinds("2 3 +"), kinds("2 3 +\n"));
    assert_eq!(kinds(""), vec![TokenType::EOF]);
}

#[test]
fn lexer_input_ends_at_the_first_end_character() {
    assert_eq!(kinds("x\0y"), vec![TokenType::Ident, TokenType::EOF]);
    let mut l = Lexer::new("x\0y");
    l.tokenize().unwrap();
    assert_eq!(l.current_pos(), 1);
    assert_eq!(l.next_token().unwrap(), Token::eof());
    assert_eq!(l.current_pos(), 1);
}

#[test]
fn lexer_skip_whitespace_and_comments_say_what_they_did() {
    let mut l = Lexer::new("  // c\nx");
    assert!(!l.skip_comments());
    assert!(l.skip_whitespace());
    assert_eq!(l.current_pos(), 2);
    assert!(!l.skip_whitespace());
    assert!(l.skip_comments());
    assert_eq!(l.current_char(), '\n');
    assert!(l.skip_whitespace());
    assert_eq!(l.current_char(), 'x');
    assert_eq!(l.peek(), '\0');
    l.next();
    assert_eq!(l.peek(), '\0');
}

#[test]
fn token_constructors() {
    let token = Token::new(TokenType::Plus, "+".into(), None);
    assert_eq!(token.token_type, TokenType::Plus);
    assert_eq!(token.lexeme, "+");
    assert_eq!(token.literal, None);
    let end = Token::eof();
    assert_eq!(end.token_type, TokenType::EOF);
    assert_eq!(end.lexeme, "");
    assert_eq!(end.literal, None);
    assert_eq!(token.clone(), token);
}
