use constant::{
    ConstantError, DoubleOpType, Lexer, Literal, Parser, SingleOpType, Statement, Token,
    TokenType, Value,
};

/// Cuts the source into tokens and works out the value of each number, as a
/// host does.
fn tokens(source: &str) -> Vec<Token> {
    let mut tokens = Lexer::new(source).tokenize().unwrap();
    for token in tokens.iter_mut() {
        if token.token_type == TokenType::Number {
            let number: f32 = token.lexeme.parse().unwrap();
            token.literal = Some(Literal::Number(number.to_bits()));
        }
    }
    tokens
}

fn parse(source: &str) -> Result<Vec<Statement>, ConstantError> {
    Parser::new(&tokens(source)).parse()
}

fn number(value: f32) -> Statement {
    Statement::Push(Value::Literal(Literal::Number(value.to_bits())))
}

fn text(value: &str) -> Statement {
    Statement::Push(Value::Literal(Literal::String(value.into())))
}

fn name(value: &str) -> Statement {
    Statement::Push(Value::Ident(value.into()))
}

fn unexpected(source: &str) -> TokenType {
    match parse(source) {
        Err(ConstantError::UnexpectedToken(kind)) => kind,
        other => panic!("{source:?} gave {other:?}"),
    }
}

#[test]
fn parser_empty_program_is_the_empty_statement() {
    assert_eq!(parse("").unwrap(), vec![Statement::Empty]);
    assert_eq!(parse("  // nothing\n").unwrap(), vec![Statement::Empty]);
    assert_eq!(Parser::new(&Vec::new()).parse().unwrap(), vec![Statement::Empty]);
}

#[test]
fn parser_program_ends_with_the_empty_statement() {
    for source in ["1", "1 2 +", "proc p do end", "if true do end"] {
        assert_eq!(parse(source).unwrap().last(), Some(&Statement::Empty));
    }
}

#[test]
fn parser_literals_and_names() {
    assert_eq!(
        parse("1.5 \"two\" true false three").unwrap(),
        vec![
            number(1.5),
            text("two"),
            Statement::Push(Value::Literal(Literal::Bool(true))),
            Statement::Push(Value::Literal(Literal::Bool(false))),
            name("three"),
            Statement::Empty,
        ]
    );
}

#[test]
fn parser_operators() {
    assert_eq!(
        parse("+ - * / % > >= < <= == != swap print dup drop").unwrap(),
        vec![
            Statement::DoubleOperation(DoubleOpType::Add),
            Statement::DoubleOperation(DoubleOpType::Sub),
            Statement::DoubleOperation(DoubleOpType::Mul),
            Statement::DoubleOperation(DoubleOpType::Div),
            Statement::DoubleOperation(DoubleOpType::Mod),
            Statement::DoubleOperation(DoubleOpType::GT),
            Statement::DoubleOperation(DoubleOpType::GTEq),
            Statement::DoubleOperation(DoubleOpType::LT),
            Statement::DoubleOperation(DoubleOpType::LTEq),
            Statement::DoubleOperation(DoubleOpType::Eq),
            Statement::DoubleOperation(DoubleOpType::NotEq),
            Statement::DoubleOperation(DoubleOpType::Swap),
            Statement::SingleOperation(SingleOpType::Print),
            Statement::SingleOperation(SingleOpType::Dup),
            Statement::SingleOperation(SingleOpType::Drop),
            Statement::Empty,
        ]
    );
}

#[test]
fn parser_logical_operator_tokens() {
    let tokens = vec![
        Token::new(TokenType::And, "and".into(), None),
        Token::new(TokenType::Or, "or".into(), None),
        Token::eof(),
    ];
    assert_eq!(
        Parser::new(&tokens).parse().unwrap(),
        vec![
            Statement::DoubleOperation(DoubleOpType::And),
            Statement::DoubleOperation(DoubleOpType::Or),
            Statement::Empty,
        ]
    );
}

#[test]
fn parser_bind_and_call() {
    assert_eq!(
        parse("10 bind x call p").unwrap(),
        vec![
            number(10.0),
            Statement::Bind("x".into()),
            Statement::Call("p".into()),
            Statement::Empty,
        ]
    );
    assert_eq!(unexpected("bind 1"), TokenType::Number);
    assert_eq!(unexpected("bind"), TokenType::EOF);
    assert_eq!(unexpected("call print"), TokenType::Print);
    assert_eq!(unexpected("bind if"), TokenType::If);
}

#[test]
fn parser_procedure() {
    assert_eq!(
        parse("proc p do x 1 + end").unwrap(),
        vec![
            Statement::Procedure(
                "p".into(),
                vec![
                    name("x"),
                    number(1.0),
                    Statement::DoubleOperation(DoubleOpType::Add)
                ]
            ),
            Statement::Empty,
        ]
    );
    assert_eq!(
        parse("proc p do end").unwrap(),
        vec![Statement::Procedure("p".into(), vec![]), Statement::Empty]
    );
    assert_eq!(unexpected("proc do end"), TokenType::Do);
    assert_eq!(unexpected("proc p x end"), TokenType::Ident);
    assert_eq!(unexpected("proc p do 1"), TokenType::EOF);
}

#[test]
fn parser_while() {
    assert_eq!(
        parse("while i 3 < do i print end").unwrap(),
        vec![
            Statement::While(
                vec![
                    name("i"),
                    number(3.0),
                    Statement::DoubleOperation(DoubleOpType::LT)
                ],
                vec![name("i"), Statement::SingleOperation(SingleOpType::Print)]
            ),
            Statement::Empty,
        ]
    );
    assert_eq!(unexpected("while true end"), TokenType::End);
    assert_eq!(unexpected("while true do 1"), TokenType::EOF);
    assert_eq!(unexpected("while true"), TokenType::EOF);
}

#[test]
fn parser_if_alone() {
    assert_eq!(
        parse("if 1 2 > do \"big\" end 3").unwrap(),
        vec![
            Statement::If(
                vec![
                    number(1.0),
                    number(2.0),
                    Statement::DoubleOperation(DoubleOpType::GT)
                ],
                vec![text("big")],
                vec![],
                vec![]
            ),
            number(3.0),
            Statement::Empty,
        ]
    );
}

#[test]
fn parser_if_with_else() {
    assert_eq!(
        parse("if 1 2 > do \"big\" else do \"small\" end print").unwrap(),
        vec![
            Statement::If(
                vec![
                    number(1.0),
                    number(2.0),
                    Statement::DoubleOperation(DoubleOpType::GT)
                ],
                vec![text("big")],
                vec![],
                vec![text("small")]
            ),
            Statement::SingleOperation(SingleOpType::Print),
            Statement::Empty,
        ]
    );
}

#[test]
fn parser_if_with_elifs() {
    assert_eq!(
        parse("if a do 1 elif b do 2 elif c do 3 else do 4 end").unwrap(),
        vec![
            Statement::If(
                vec![name("a")],
                vec![number(1.0)],
                vec![
                    (vec![name("b")], vec![number(2.0)]),
                    (vec![name("c")], vec![number(3.0)])
                ],
                vec![number(4.0)]
            ),
            Statement::Empty,
        ]
    );
    assert_eq!(
        parse("if a do elif b do end").unwrap(),
        vec![
            Statement::If(vec![name("a")], vec![], vec![(vec![name("b")], vec![])], vec![]),
            Statement::Empty,
        ]
    );
}

#[test]
fn parser_nested_blocks() {
    assert_eq!(
        parse("proc p do while true do if false do 1 end end end").unwrap(),
        vec![
            Statement::Procedure(
                "p".into(),
                vec![Statement::While(
                    vec![Statement::Push(Value::Literal(Literal::Bool(true)))],
                    vec![Statement::If(
                        vec![Statement::Push(Value::Literal(Literal::Bool(false)))],
                        vec![number(1.0)],
                        vec![],
                        vec![]
                    )]
                )]
            ),
            Statement::Empty,
        ]
    );
}

#[test]
fn parser_if_errors() {
    assert_eq!(unexpected("if true"), TokenType::EOF);
    assert_eq!(unexpected("if true do 1"), TokenType::EOF);
    assert_eq!(unexpected("if true do 1 else 2 end"), TokenType::Number);
    assert_eq!(unexpected("if true do 1 else do 2"), TokenType::EOF);
    assert_eq!(unexpected("if true do 1 else do 2 else do 3 end"), TokenType::Else);
    assert_eq!(unexpected("if true do 1 elif false 2 end"), TokenType::End);
    assert_eq!(unexpected("if true end"), TokenType::End);
}

#[test]
fn parser_block_words_where_a_statement_is_expected() {
    assert_eq!(unexpected("end"), TokenType::End);
    assert_eq!(unexpected("1 do"), TokenType::Do);
    assert_eq!(unexpected("else"), TokenType::Else);
    assert_eq!(unexpected("1 2 elif"), TokenType::Elif);
}

#[test]
fn parser_number_without_value_is_unexpected() {
    let tokens = Lexer::new("12").tokenize().unwrap();
    assert!(matches!(
        Parser::new(&tokens).parse(),
        Err(ConstantError::UnexpectedToken(TokenType::Number))
    ));
}

#[test]
fn parser_stops_at_the_first_end_of_input() {
    let tokens = vec![
        Token::new(TokenType::Dup, "dup".into(), None),
        Token::eof(),
        Token::new(TokenType::Drop, "drop".into(), None),
    ];
    assert_eq!(
        Parser::new(&tokens).parse().unwrap(),
        vec![Statement::SingleOperation(SingleOpType::Dup), Statement::Empty]
    );
}

#[test]
fn parser_tokens_may_end_without_end_of_input() {
    let tokens = vec![Token::new(TokenType::Dup, "dup".into(), None)];
    assert_eq!(
        Parser::new(&tokens).parse().unwrap(),
        vec![Statement::SingleOperation(SingleOpType::Dup), Statement::Empty]
    );
    let tokens = vec![Token::new(TokenType::Bind, "bind".into(), None)];
    assert!(matches!(
        Parser::new(&tokens).parse(),
        Err(ConstantError::UnexpectedToken(TokenType::EOF))
    ));
}

#[test]
fn parser_kind_looks_at_the_first_token() {
    let tokens = tokens("dup");
    let parser = Parser::new(&tokens);
    assert_eq!(parser.kind(), TokenType::Dup);
    assert_eq!(Parser::new(&Vec::new()).kind(), TokenType::EOF);
}

#[test]
fn statement_clone_is_equal() {
    let program = parse("if a do 1 elif b do \"2\" else do while c do call d end end proc e do bind f end").unwrap();
    assert_eq!(program.clone(), program);
}
