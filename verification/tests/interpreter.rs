use constant::interpreter::show;
use constant::{
    Action, Arithmetic, ConstantError, DoubleOpType, Interpreter, Lexer, Literal, Parser,
    SingleOpType, Statement, TokenType, Value,
};

/// The arithmetic that the interpreter leaves to its host.
fn compute(op: Arithmetic, left: u32, right: u32) -> u32 {
    let (a, b) = (f32::from_bits(left), f32::from_bits(right));
    let result = match op {
        Arithmetic::Add => a + b,
        Arithmetic::Sub => a - b,
        Arithmetic::Mul => a * b,
        Arithmetic::Div => a / b,
        Arithmetic::Rem => a % b,
    };
    result.to_bits()
}

/// Runs what is pending, as a host does, and collects the lines written.
fn drive(interpreter: &mut Interpreter, lines: &mut Vec<String>) -> Result<(), ConstantError> {
    loop {
        match interpreter.interpret(64)? {
            Action::Done => return Ok(()),
            Action::Continue => {}
            Action::Print(line) => lines.push(line),
            Action::PrintNumber(bits) => lines.push(format!("{}", f32::from_bits(bits))),
            Action::Arithmetic(op, left, right) => interpreter.resume(compute(op, left, right)),
        }
    }
}

fn parse(source: &str) -> Result<Vec<Statement>, ConstantError> {
    let mut tokens = Lexer::new(source).tokenize()?;
    for token in tokens.iter_mut() {
        if token.token_type == TokenType::Number {
            let number: f32 = token.lexeme.parse().unwrap();
            token.literal = Some(Literal::Number(number.to_bits()));
        }
    }
    Parser::new(&tokens).parse()
}

struct Run {
    lines: Vec<String>,
    stack: Vec<Literal>,
    result: Result<(), ConstantError>,
}

fn run(source: &str) -> Run {
    let mut lines = Vec::new();
    match parse(source) {
        Err(error) => Run { lines, stack: Vec::new(), result: Err(error) },
        Ok(program) => {
            let mut interpreter = Interpreter::new(program);
            let result = drive(&mut interpreter, &mut lines);
            Run { lines, stack: interpreter.stack().clone(), result }
        }
    }
}

fn output(source: &str) -> Vec<String> {
    let run = run(source);
    assert!(run.result.is_ok(), "{source:?} gave {:?}", run.result);
    run.lines
}

fn number(value: f32) -> Literal {
    Literal::Number(value.to_bits())
}

fn text(value: &str) -> Literal {
    Literal::String(value.into())
}

fn push(value: Literal) -> Statement {
    Statement::Push(Value::Literal(value))
}

fn invalid(run: &Run) -> &str {
    match &run.result {
        Err(ConstantError::InvalidOperation(why)) => why,
        other => panic!("{other:?}"),
    }
}

#[test]
fn scenario_add_and_print() {
    assert_eq!(output("2 3 + print"), vec!["5"]);
}

#[test]
fn scenario_duplicate_and_multiply() {
    assert_eq!(output("5 dup * print"), vec!["25"]);
}

#[test]
fn scenario_repeat_a_string() {
    assert_eq!(output("\"ab\" 3 * print"), vec!["ababab"]);
}

#[test]
fn scenario_logical_and() {
    let mut interpreter = Interpreter::new(vec![
        push(Literal::Bool(true)),
        push(Literal::Bool(false)),
        Statement::DoubleOperation(DoubleOpType::And),
        Statement::SingleOperation(SingleOpType::Print),
        Statement::Empty,
    ]);
    let mut lines = Vec::new();
    drive(&mut interpreter, &mut lines).unwrap();
    assert_eq!(lines, vec!["false"]);
}

#[test]
fn scenario_and_is_no_keyword() {
    let run = run("true false and print");
    assert!(
        matches!(&run.result, Err(ConstantError::IdentDoesNotExist(name)) if name == "and")
    );
    assert!(run.lines.is_empty());
    assert_eq!(run.stack, vec![Literal::Bool(true), Literal::Bool(false)]);
}

#[test]
fn scenario_bind_and_procedure() {
    assert_eq!(output("10 bind x proc p do x 1 + end call p print"), vec!["11"]);
}

#[test]
fn scenario_if_else_with_inline_comparison() {
    assert_eq!(
        output("if 1 2 > do \"big\" else do \"small\" end print"),
        vec!["small"]
    );
}

#[test]
fn scenario_unterminated_string() {
    let run = run("\"unterminated");
    assert!(matches!(run.result, Err(ConstantError::StringNotTerminated)));
    assert!(run.lines.is_empty());
}

#[test]
fn arithmetic_is_that_of_the_floats() {
    let pairs: [(f32, f32); 8] = [
        (2.0, 3.0),
        (7.5, 2.0),
        (0.1, 0.2),
        (1.0, 0.0),
        (0.0, 0.0),
        (16777216.0, 1.0),
        (3.0e38, 3.0e38),
        (5.5, 1.25),
    ];
    for (a, b) in pairs {
        for (symbol, expected) in [("+", a + b), ("-", a - b), ("*", a * b), ("/", a / b), ("%", a % b)]
        {
            let run = run(&format!("{a} {b} {symbol}"));
            assert!(run.result.is_ok());
            assert_eq!(run.stack, vec![number(expected)], "{a} {symbol} {b}");
        }
    }
}

#[test]
fn arithmetic_hands_the_operands_to_the_host_in_order() {
    let mut interpreter = Interpreter::new(parse("7 2 -").unwrap());
    assert_eq!(
        interpreter.interpret(10).unwrap(),
        Action::Arithmetic(Arithmetic::Sub, 7.0f32.to_bits(), 2.0f32.to_bits())
    );
    assert!(interpreter.stack().is_empty());
    interpreter.resume(5.0f32.to_bits());
    assert_eq!(interpreter.stack(), &vec![number(5.0)]);
    assert_eq!(interpreter.interpret(10).unwrap(), Action::Done);
    assert!(interpreter.is_done());
}

#[test]
fn division_by_zero_is_no_error() {
    assert_eq!(output("1 0 / print"), vec!["inf"]);
    assert_eq!(output("0 0 / print"), vec!["NaN"]);
    assert_eq!(output("5 0 % print"), vec!["NaN"]);
}

#[test]
fn print_forms() {
    assert_eq!(
        output("1.5 print 3 print \"text\" print true print false print"),
        vec!["1.5", "3", "text", "true", "false"]
    );
    assert_eq!(output("12. print 007 print 0.25 print"), vec!["12", "7", "0.25"]);
}

#[test]
fn duplicate_leaves_the_value_twice() {
    assert_eq!(run("7 dup").stack, vec![number(7.0), number(7.0)]);
    assert_eq!(run("1 \"v\" dup").stack, vec![number(1.0), text("v"), text("v")]);
    assert_eq!(output("\"v\" dup print print"), vec!["v", "v"]);
}

#[test]
fn drop_discards_the_top() {
    assert_eq!(run("1 2 drop").stack, vec![number(1.0)]);
}

#[test]
fn swap_twice_restores_the_order() {
    assert_eq!(run("1 2 swap").stack, vec![number(2.0), number(1.0)]);
    assert_eq!(run("1 2 swap swap").stack, vec![number(1.0), number(2.0)]);
    assert_eq!(
        run("0 \"a\" true swap").stack,
        vec![number(0.0), Literal::Bool(true), text("a")]
    );
}

#[test]
fn bind_then_push_gives_the_value_back() {
    assert_eq!(run("\"kept\" bind x x").stack, vec![text("kept")]);
    assert_eq!(run("1.25 bind x x x").stack, vec![number(1.25), number(1.25)]);
    assert_eq!(run("1 bind x 2 bind x x").stack, vec![number(2.0)]);
}

#[test]
fn bind_hides_a_procedure() {
    let run = run("proc p do 1 end 2 bind p call p");
    assert!(matches!(&run.result, Err(ConstantError::ProcDoesNotExist(name)) if name == "p"));
    assert!(run.stack.is_empty());
}

#[test]
fn procedure_hides_a_binding() {
    let run = run("2 bind p proc p do 1 end p");
    assert!(matches!(&run.result, Err(ConstantError::IdentDoesNotExist(name)) if name == "p"));
    assert_eq!(output("2 bind p proc p do 1 end call p print"), vec!["1"]);
}

#[test]
fn unknown_names() {
    let missing = run("1 nothing");
    assert!(
        matches!(&missing.result, Err(ConstantError::IdentDoesNotExist(name)) if name == "nothing")
    );
    assert_eq!(missing.stack, vec![number(1.0)]);
    let uncalled = run("1 call nothing");
    assert!(
        matches!(&uncalled.result, Err(ConstantError::ProcDoesNotExist(name)) if name == "nothing")
    );
    assert_eq!(uncalled.stack, vec![number(1.0)]);
}

#[test]
fn single_operations_need_one_value() {
    for (source, name) in [("print", "Printing"), ("dup", "Duping"), ("drop", "Dropping")] {
        let run = run(source);
        assert!(
            matches!(&run.result, Err(ConstantError::InvalidStackAmount(action, 1)) if action == name),
            "{source}"
        );
        assert!(run.stack.is_empty());
        assert!(run.lines.is_empty());
    }
    let run = run("bind x");
    assert!(
        matches!(&run.result, Err(ConstantError::InvalidStackAmount(action, 1)) if action == "Binding")
    );
}

#[test]
fn double_operations_need_two_values() {
    for (symbol, name) in [
        ("+", "Addition"),
        ("-", "Subtraction"),
        ("*", "Multiplication"),
        ("/", "Division"),
        ("%", "Modulo"),
        ("swap", "Swapping"),
        (">", "Comparison"),
        (">=", "Comparison"),
        ("<", "Comparison"),
        ("<=", "Comparison"),
        ("==", "Comparison"),
        ("!=", "Comparison"),
    ] {
        let empty = run(symbol);
        assert!(
            matches!(&empty.result, Err(ConstantError::InvalidStackAmount(action, 2)) if action == name),
            "{symbol}"
        );
        assert!(empty.stack.is_empty());
        let one = run(&format!("\"only\" {symbol}"));
        assert!(
            matches!(&one.result, Err(ConstantError::InvalidStackAmount(action, 2)) if action == name),
            "{symbol}"
        );
        assert_eq!(one.stack, vec![text("only")], "{symbol}");
    }
}

#[test]
fn an_error_ends_the_program() {
    let run = run("1 print + 2 print");
    assert_eq!(run.lines, vec!["1"]);
    assert!(run.result.is_err());
    assert!(run.stack.is_empty());
}

#[test]
fn refused_operands_go_back_on_the_stack() {
    for (source, why) in [
        ("1 \"a\" +", "Can only add numbers to numbers"),
        ("true 1 +", "Cannot add booleans"),
        ("\"a\" 1 +", "Can only add strings to strings"),
        ("1 true -", "Can only subtract numbers from numbers"),
        ("false 1 -", "Cannot subtract booleans"),
        ("\"a\" \"b\" -", "Cannot subtract strings"),
        ("1 \"a\" *", "Can only multiply numbers with numbers"),
        ("true 2 *", "Cannot multiply booleans"),
        ("\"a\" \"b\" *", "Can only multiply strings with numbers"),
        ("1 \"a\" /", "Can only divide numbers with number"),
        ("true 2 /", "Cannot divide with booleans"),
        ("\"a\" 2 /", "Cannot divide with strings"),
        ("1 \"a\" %", "Can only mod numbers with numbers"),
        ("true 2 %", "Cannot mod with booleans"),
        ("\"a\" 2 %", "Cannot mod with strings"),
    ] {
        let run = run(&format!("0 {source}"));
        assert_eq!(invalid(&run), why, "{source}");
        assert_eq!(run.stack.len(), 3, "{source}");
        let again = self::run(&format!("0 {}", &source[..source.len() - 1]));
        assert_eq!(run.stack, again.stack, "{source}");
    }
}

#[test]
fn strings_join_and_repeat() {
    assert_eq!(run("\"ab\" \"cd\" +").stack, vec![text("abcd")]);
    assert_eq!(run("\"ab\" 2.9 *").stack, vec![text("abab")]);
    assert_eq!(run("\"ab\" 0 *").stack, vec![text("")]);
    assert_eq!(run("\"ab\" 0 1 - *").stack, vec![text("")]);
    assert_eq!(run("\"ab\" 0 0 / *").stack, vec![text("")]);
    assert_eq!(run("\"\" 1 0 / *").stack, vec![text("")]);
}

#[test]
fn comparisons_within_a_kind() {
    for (source, expected) in [
        ("1 2 <", true),
        ("2 1 <", false),
        ("2 2 <", false),
        ("2 2 <=", true),
        ("3 2 <=", false),
        ("3 2 >", true),
        ("2 2 >", false),
        ("2 2 >=", true),
        ("1 2 >=", false),
        ("2 2 ==", true),
        ("2 3 ==", false),
        ("2 3 !=", true),
        ("2 2 !=", false),
        ("0 0 0 - ==", true),
        ("\"a\" \"b\" <", true),
        ("\"b\" \"a\" <", false),
        ("\"a\" \"ab\" <", true),
        ("\"a\" \"a\" <=", true),
        ("\"a\" \"a\" >=", true),
        ("\"b\" \"a\" >", true),
        ("\"a\" \"a\" ==", true),
        ("\"a\" \"b\" ==", false),
        ("\"a\" \"b\" !=", true),
        ("false true <", true),
        ("true false <", false),
        ("true true <=", true),
        ("true false >", true),
        ("true true ==", true),
        ("true false !=", true),
    ] {
        assert_eq!(run(source).stack, vec![Literal::Bool(expected)], "{source}");
    }
}

#[test]
fn comparisons_with_what_is_no_number() {
    for (symbol, expected) in
        [("<", false), ("<=", false), (">", false), (">=", false), ("==", false), ("!=", true)]
    {
        let source = format!("0 0 / dup {symbol}");
        assert_eq!(run(&source).stack, vec![Literal::Bool(expected)], "{source}");
        let source = format!("0 0 / 1 {symbol}");
        assert_eq!(run(&source).stack, vec![Literal::Bool(expected)], "{source}");
    }
}

#[test]
fn comparisons_across_kinds() {
    assert_eq!(run("1 \"1\" ==").stack, vec![Literal::Bool(false)]);
    assert_eq!(run("1 true ==").stack, vec![Literal::Bool(false)]);
    assert_eq!(run("\"true\" true !=").stack, vec![Literal::Bool(true)]);
    for symbol in ["<", "<=", ">", ">="] {
        let run = run(&format!("1 \"a\" {symbol}"));
        assert_eq!(invalid(&run), "Can only order values of the same kind");
        assert_eq!(run.stack, vec![number(1.0), text("a")]);
    }
}

#[test]
fn logical_operations() {
    let logic = |left: Literal, right: Literal, op: DoubleOpType| {
        let mut interpreter =
            Interpreter::new(vec![push(left), push(right), Statement::DoubleOperation(op)]);
        let result = drive(&mut interpreter, &mut Vec::new());
        (interpreter.stack().clone(), result)
    };
    for a in [false, true] {
        for b in [false, true] {
            assert_eq!(
                logic(Literal::Bool(a), Literal::Bool(b), DoubleOpType::And).0,
                vec![Literal::Bool(a && b)]
            );
            assert_eq!(
                logic(Literal::Bool(a), Literal::Bool(b), DoubleOpType::Or).0,
                vec![Literal::Bool(a || b)]
            );
        }
    }
    let (stack, result) = logic(number(1.0), Literal::Bool(true), DoubleOpType::Or);
    assert!(matches!(
        result,
        Err(ConstantError::InvalidOperation(why))
            if why == "Logical operations can only be performed on bools"
    ));
    assert_eq!(stack, vec![number(1.0), Literal::Bool(true)]);
}

#[test]
fn if_takes_the_first_true_branch() {
    let source = |a: bool, b: bool, c: bool| {
        format!("if {a} do 1 print elif {b} do 2 print elif {c} do 3 print else do 4 print end 5 print")
    };
    assert_eq!(output(&source(true, true, true)), vec!["1", "5"]);
    assert_eq!(output(&source(false, true, true)), vec!["2", "5"]);
    assert_eq!(output(&source(false, false, true)), vec!["3", "5"]);
    assert_eq!(output(&source(false, false, false)), vec!["4", "5"]);
    assert_eq!(output("if false do 1 print end 2 print"), vec!["2"]);
}

#[test]
fn elif_conditions_run_only_until_one_holds() {
    assert_eq!(
        output("if \"a\" print false do elif \"b\" print true do elif \"c\" print true do end"),
        vec!["a", "b"]
    );
}

#[test]
fn if_needs_a_truth_value() {
    let empty = run("if do 1 end");
    assert_eq!(invalid(&empty), "If statement expects boolean value on top of stack");
    let number_on_top = run("7 if 1 do 2 end");
    assert_eq!(invalid(&number_on_top), "If statement expects boolean value on top of stack");
    assert_eq!(number_on_top.stack, vec![number(7.0)]);
    let in_elif = run("if false do elif \"x\" do end");
    assert_eq!(invalid(&in_elif), "If statement expects boolean value on top of stack");
    assert!(in_elif.stack.is_empty());
}

#[test]
fn while_runs_until_its_conditions_fail() {
    assert_eq!(
        output("0 bind i while i 3 < do i print i 1 + bind i end \"done\" print"),
        vec!["0", "1", "2", "done"]
    );
    assert_eq!(output("while false do 1 print end 2 print"), vec!["2"]);
}

#[test]
fn while_needs_a_truth_value() {
    let run = run("while 1 do end");
    assert_eq!(invalid(&run), "While statement expects boolean value on top of stack");
    assert!(run.stack.is_empty());
    let empty = self::run("while do end");
    assert_eq!(invalid(&empty), "While statement expects boolean value on top of stack");
}

#[test]
fn nested_loops() {
    assert_eq!(
        output(
            "0 bind i while i 2 < do 0 bind j while j 2 < do i 10 * j + print j 1 + bind j end i 1 + bind i end"
        ),
        vec!["0", "1", "10", "11"]
    );
}

#[test]
fn endless_loop_takes_steps_without_end() {
    let mut interpreter = Interpreter::new(parse("while true do end").unwrap());
    for _ in 0..100 {
        assert_eq!(interpreter.interpret(1000).unwrap(), Action::Continue);
        assert!(!interpreter.is_done());
    }
}

#[test]
fn procedures_share_stack_and_names() {
    assert_eq!(
        output("proc set do 5 bind x end call set x print"),
        vec!["5"]
    );
    assert_eq!(
        output("proc twice do dup + end 4 call twice call twice print"),
        vec!["16"]
    );
}

#[test]
fn procedure_may_call_itself() {
    assert_eq!(
        output("3 bind n proc down do if n 0 > do n print n 1 - bind n call down end end call down"),
        vec!["3", "2", "1"]
    );
}

#[test]
fn procedure_may_replace_itself_while_it_runs() {
    assert_eq!(
        output("proc p do proc p do 2 print end 1 print end call p call p"),
        vec!["1", "2"]
    );
}

#[test]
fn step_by_step() {
    let mut interpreter = Interpreter::new(parse("1 print").unwrap());
    assert!(!interpreter.is_done());
    assert_eq!(interpreter.step().unwrap(), Action::Continue);
    assert_eq!(interpreter.stack(), &vec![number(1.0)]);
    assert_eq!(interpreter.step().unwrap(), Action::PrintNumber(1.0f32.to_bits()));
    assert!(interpreter.stack().is_empty());
    assert_eq!(interpreter.step().unwrap(), Action::Continue);
    assert!(interpreter.is_done());
    assert_eq!(interpreter.step().unwrap(), Action::Done);
    assert_eq!(interpreter.step().unwrap(), Action::Done);
}

#[test]
fn budget_bounds_the_steps() {
    let mut interpreter = Interpreter::new(parse("1 2 3 4").unwrap());
    assert_eq!(interpreter.interpret(0).unwrap(), Action::Continue);
    assert!(interpreter.stack().is_empty());
    assert_eq!(interpreter.interpret(3).unwrap(), Action::Continue);
    assert_eq!(interpreter.stack().len(), 3);
    assert_eq!(interpreter.interpret(3).unwrap(), Action::Done);
    assert_eq!(interpreter.stack().len(), 4);
}

#[test]
fn a_session_keeps_stack_and_names() {
    let mut interpreter = Interpreter::new(parse("1 bind x proc p do x print end 2").unwrap());
    let mut lines = Vec::new();
    drive(&mut interpreter, &mut lines).unwrap();
    interpreter.load(parse("call p print +").unwrap());
    assert!(drive(&mut interpreter, &mut lines).is_err());
    assert_eq!(lines, vec!["1", "2"]);
    assert!(interpreter.is_done());
    interpreter.load(parse("x print").unwrap());
    drive(&mut interpreter, &mut lines).unwrap();
    assert_eq!(lines, vec!["1", "2", "1"]);
}

#[test]
fn load_replaces_what_is_pending() {
    let mut interpreter = Interpreter::new(parse("1 2 3").unwrap());
    interpreter.step().unwrap();
    interpreter.load(parse("9").unwrap());
    drive(&mut interpreter, &mut Vec::new()).unwrap();
    assert_eq!(interpreter.stack(), &vec![number(1.0), number(9.0)]);
}

#[test]
fn literal_operators() {
    assert_eq!(
        number(1.0).add(number(2.0)).unwrap(),
        constant::Outcome::Arithmetic(Arithmetic::Add, 1.0f32.to_bits(), 2.0f32.to_bits())
    );
    assert_eq!(
        number(1.0).rem(number(2.0)).unwrap(),
        constant::Outcome::Arithmetic(Arithmetic::Rem, 1.0f32.to_bits(), 2.0f32.to_bits())
    );
    assert_eq!(
        text("a").add(text("b")).unwrap(),
        constant::Outcome::Value(text("ab"))
    );
    assert_eq!(
        text("a").mul(number(2.0)).unwrap(),
        constant::Outcome::Value(text("aa"))
    );
    assert!(text("a").sub(text("b")).is_err());
    assert!(Literal::Bool(true).div(number(1.0)).is_err());
    assert_eq!(number(1.0).before(&number(2.0)), Some(true));
    assert_eq!(number(1.0).before(&text("2")), None);
    assert!(text("a").equals(&text("a")));
    assert!(!text("a").equals(&number(1.0)));
    assert_eq!(text("a").clone(), text("a"));
}

#[test]
fn names_can_be_looked_up() {
    let mut interpreter = Interpreter::new(parse("\"v\" bind x proc p do 1 end").unwrap());
    drive(&mut interpreter, &mut Vec::new()).unwrap();
    assert_eq!(interpreter.bound("x"), Some(&text("v")));
    assert_eq!(interpreter.bound("p"), None);
    assert_eq!(interpreter.procedure("p"), Some(&vec![push(number(1.0))]));
    assert_eq!(interpreter.procedure("x"), None);
    interpreter.load(parse("2 bind p proc x do end").unwrap());
    drive(&mut interpreter, &mut Vec::new()).unwrap();
    assert_eq!(interpreter.bound("p"), Some(&number(2.0)));
    assert_eq!(interpreter.procedure("p"), None);
    assert_eq!(interpreter.bound("x"), None);
    assert_eq!(interpreter.procedure("x"), Some(&vec![]));
}

#[test]
fn show_says_how_a_value_is_printed() {
    assert_eq!(show(number(1.5)), Action::PrintNumber(1.5f32.to_bits()));
    assert_eq!(show(text("a b")), Action::Print("a b".into()));
    assert_eq!(show(Literal::Bool(true)), Action::Print("true".into()));
    assert_eq!(show(Literal::Bool(false)), Action::Print("false".into()));
}
