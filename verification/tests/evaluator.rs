use rss::ast::ASTNode;
use rss::error_handler::ErrorHandler;
use rss::interp::variable_value::VariableValue;
use rss::interp::{compute_binary, compute_unary, Interpreter, Outcome};
use rss::ast::{BinaryOp, UnaryOp};
use rss::number::Number;
use rss::tokenizer::tokenize;

fn run(source: &str) -> Result<String, ErrorHandler> {
    Interpreter::new().eval(source)
}

fn ok(s: &str) -> Result<String, ErrorHandler> {
    Ok(s.to_string())
}

fn text(s: &str) -> String {
    s.to_string()
}

fn number(i: i64) -> VariableValue {
    VariableValue::Number(Number::from_int(i))
}

#[test]
fn a_new_interpreter_is_empty() {
    let interpreter = Interpreter::new();
    assert_eq!(interpreter.variables.len(), 0);
    assert_eq!(interpreter.functions.len(), 0);
    assert!(interpreter.output.is_empty());
    assert_eq!(interpreter.max_depth, 1000);
    assert_eq!(interpreter.loop_limit, 1_000_000);
}

#[test]
fn arithmetic_on_numbers() {
    assert_eq!(run("1 + 2"), ok("3"));
    assert_eq!(run("1 - 2"), ok("-1"));
    assert_eq!(run("2.5 * 4"), ok("10"));
    assert_eq!(run("7 / 2"), ok("3.5"));
    assert_eq!(run("7 % 2"), ok("1"));
    assert_eq!(run("-7 % 2"), ok("-1"));
    assert_eq!(run("7.5 % 2"), ok("1.5"));
    assert_eq!(run("1 / 3"), ok("0.333333333"));
    assert_eq!(run("2 ^ 10"), ok("1024"));
    assert_eq!(run("2 ^ -1"), ok("0.5"));
    assert_eq!(run("2 ^ 3 ^ 2"), ok("512"));
    assert_eq!(run("-(3)"), ok("-3"));
    assert_eq!(run("!0"), ok("1"));
    assert_eq!(run("!5"), ok("0"));
    assert_eq!(run("true + true"), ok("2"));
}

#[test]
fn arithmetic_errors() {
    assert_eq!(run("1 / 0"), Err(ErrorHandler::DivisionByZero));
    assert_eq!(run("1 % 0"), Err(ErrorHandler::DivisionByZero));
    assert_eq!(run("1 / (2 - 2)"), Err(ErrorHandler::DivisionByZero));
    assert_eq!(run("0 ^ -1"), Err(ErrorHandler::DivisionByZero));
    assert_eq!(run("2 ^ 0.5"), Err(ErrorHandler::SyntaxError(text("Exponent is not a whole number"))));
    assert_eq!(run("2 ^ 64"), Err(ErrorHandler::NumberOutOfRange));
    assert_eq!(run("9223372036854775807 + 9223372036854775807"), Err(ErrorHandler::NumberOutOfRange));
    assert_eq!(run("9223372036854775807 * 2"), Err(ErrorHandler::NumberOutOfRange));
    assert_eq!(run("1 / 0.000000001 / 0.000000001 / 0.000000001"), Err(ErrorHandler::NumberOutOfRange));
    assert_eq!(run("1 + \"a\""), Err(ErrorHandler::ParseError(text("Expected a number"))));
    assert_eq!(run("-\"a\""), Err(ErrorHandler::ParseError(text("Expected a number"))));
}

#[test]
fn comparisons_give_one_or_zero() {
    assert_eq!(run("1 == 1"), ok("1"));
    assert_eq!(run("1 != 1"), ok("0"));
    assert_eq!(run("1 < 2"), ok("1"));
    assert_eq!(run("2 <= 2"), ok("1"));
    assert_eq!(run("1 > 2"), ok("0"));
    assert_eq!(run("1 >= 2"), ok("0"));
    assert_eq!(run("0.5 == 1 / 2"), ok("1"));
    assert_eq!(run("\"a\" == \"a\""), ok("1"));
    assert_eq!(run("\"a\" != \"b\""), ok("1"));
    assert_eq!(run("\"a\" == \"b\""), ok("0"));
}

#[test]
fn equality_refuses_a_number_beside_a_text() {
    let refused = Err(ErrorHandler::SyntaxError(text("Cannot compare a number with a text")));
    assert_eq!(run("1 == \"1\""), refused);
    assert_eq!(run("\"1\" != 1"), refused);
    assert_eq!(run("\"a\" < \"b\""), Err(ErrorHandler::ParseError(text("Expected a number"))));
}

#[test]
fn operators_on_values() {
    assert_eq!(compute_binary(BinaryOp::Add, &number(2), &number(3)), Ok(number(5)));
    assert_eq!(compute_binary(BinaryOp::Div, &number(2), &number(0)), Err(ErrorHandler::DivisionByZero));
    assert_eq!(compute_binary(BinaryOp::Mod, &number(2), &number(0)), Err(ErrorHandler::DivisionByZero));
    assert_eq!(
        compute_binary(BinaryOp::Eq, &VariableValue::Text(text("a")), &VariableValue::Text(text("a"))),
        Ok(number(1))
    );
    assert_eq!(compute_unary(UnaryOp::Neg, &number(2)), Ok(number(-2)));
    assert_eq!(compute_unary(UnaryOp::Not, &number(0)), Ok(number(1)));
}

#[test]
fn values_know_their_kind() {
    assert_eq!(number(2).as_number(), Ok(Number::from_int(2)));
    assert_eq!(
        VariableValue::Text(text("a")).as_number(),
        Err(ErrorHandler::ParseError(text("Expected a number")))
    );
    assert_eq!(VariableValue::Text(text("a")).as_text(), Ok(&text("a")));
    assert_eq!(number(2).as_text(), Err(ErrorHandler::ParseError(text("Expected a text"))));
    assert_eq!(number(2).to_string(), "2");
    assert_eq!(VariableValue::Text(text("a b")).to_string(), "a b");
    assert_eq!(number(2).clone(), number(2));
}

#[test]
fn variables_are_declared_assigned_and_deleted() {
    assert_eq!(run("let x:int = 5; x = x + 1; x"), ok("6"));
    assert_eq!(run("let x:float = 5; x"), ok("5"));
    assert_eq!(run("let s:string = \"a\"; s"), ok("a"));
    assert_eq!(run("let b:bool = true; b"), ok("1"));
    assert_eq!(run("let x:int = 5;"), ok("OK"));
    assert_eq!(run("let x:int = 5; del x; let x:int = 6; x"), ok("6"));
}

#[test]
fn the_evaluator_checks_names_itself() {
    let mut interpreter = Interpreter::new();
    let missing = Err(ErrorHandler::VariableNotFound(text("x")));
    assert_eq!(interpreter.eval_ast(&ASTNode::VarRef(text("x")), 10), missing);
    assert_eq!(interpreter.eval_ast(&ASTNode::Del(text("x")), 10), missing);
    let assign = ASTNode::Assign(text("x"), Box::new(ASTNode::Int(1)));
    assert_eq!(interpreter.eval_ast(&assign, 10), missing);
    let declare = ASTNode::Let(text("x"), rss::types::Type::Int, Box::new(ASTNode::Int(1)));
    assert_eq!(interpreter.eval_ast(&declare, 10), Ok(Outcome::Nothing));
    assert_eq!(
        interpreter.eval_ast(&declare, 10),
        Err(ErrorHandler::VariableAlreadyExists(text("x")))
    );
    assert_eq!(interpreter.eval_ast(&ASTNode::VarRef(text("x")), 10), Ok(Outcome::Value(number(1))));
    let call = ASTNode::FuncCall(text("f"), vec![]);
    assert_eq!(interpreter.eval_ast(&call, 10), Err(ErrorHandler::FunctionNotFound(text("f"))));
    let ret = ASTNode::Return(Box::new(ASTNode::Int(2)));
    assert_eq!(interpreter.eval_ast(&ret, 10), Ok(Outcome::Return(number(2))));
    let nested = ASTNode::Unary(UnaryOp::Neg, Box::new(ASTNode::Del(text("x"))));
    assert_eq!(
        interpreter.eval_ast(&nested, 10),
        Err(ErrorHandler::SyntaxError(text("Expected a value")))
    );
}

#[test]
fn chains_take_the_first_arm_that_holds() {
    assert_eq!(run("if (0) { 1 } elif (1) { 2 } elif (1) { 3 } else { 4 }"), ok("2"));
    assert_eq!(run("if (0) { 1 } elif (0) { 2 } else { 3 }"), ok("3"));
    assert_eq!(run("if (0) { 1 } elif (0) { 2 }"), ok("OK"));
    assert_eq!(run("if (1) { 1 } elif (1 / 0) { 2 }"), ok("1"));
    assert_eq!(run("if (0) { 1 } elif (1) { 2 } elif (1 / 0) { 3 }"), ok("2"));
    assert_eq!(run("if (0) { 1 } elif (1 / 0) { 2 }"), Err(ErrorHandler::DivisionByZero));
    assert_eq!(run("if (\"a\") { 1 }"), Err(ErrorHandler::ParseError(text("Expected a number"))));
    assert_eq!(
        run("let x:int = 0; if (1) { x = 1; } elif (1) { x = 2; } else { x = 3; } x"),
        ok("1")
    );
}

#[test]
fn switch_runs_the_first_case_that_matches() {
    assert_eq!(run("switch (12) { case 11 { 10 } case 12 { 20 } case 12 { 30 } default { 40 } }"), ok("20"));
    assert_eq!(run("switch (15) { case 11 { 10 } default { 40 } }"), ok("40"));
    assert_eq!(run("switch (15) { case 11 { 10 } }"), ok("OK"));
    assert_eq!(run("switch (11) { case 11 { 10 } case 11 / 0 { 20 } }"), ok("10"));
    assert_eq!(run("switch (\"a\") { case 11 { 10 } }"), Err(ErrorHandler::ParseError(text("Expected a number"))));
}

#[test]
fn logic_stops_at_the_operand_that_decides() {
    assert_eq!(run("and(1, 2)"), ok("1"));
    assert_eq!(run("and(1, 0, 1 / 0)"), ok("0"));
    assert_eq!(run("or(0, 0)"), ok("0"));
    assert_eq!(run("or(0, 3, 1 / 0)"), ok("1"));
    assert_eq!(run("and(1, 1 / 0)"), Err(ErrorHandler::DivisionByZero));
    assert_eq!(run("and(1)"), Err(ErrorHandler::TooFewArguments(text("and"))));
    assert_eq!(run("or()"), Err(ErrorHandler::TooFewArguments(text("or"))));
}

#[test]
fn largest_and_smallest() {
    assert_eq!(run("max(1, 5, 3)"), ok("5"));
    assert_eq!(run("min(4, -2.5, 3)"), ok("-2.5"));
    assert_eq!(run("max(7)"), ok("7"));
    assert_eq!(run("max()"), Err(ErrorHandler::TooFewArguments(text("max"))));
    assert_eq!(run("min(1, \"a\")"), Err(ErrorHandler::ParseError(text("Expected a number"))));
    assert_eq!(run("max(1, 1 / 0, \"a\")"), Err(ErrorHandler::DivisionByZero));
}

#[test]
fn text_functions() {
    assert_eq!(run("concat()"), ok(""));
    assert_eq!(run("concat(\"a\", 1.5, \"b\", -2)"), ok("a1.5b-2"));
    assert_eq!(run("len(\"hello\")"), ok("5"));
    assert_eq!(run("len(\"\")"), ok("0"));
    assert_eq!(run("len(\"h\u{e9}\")"), ok("3"));
    assert_eq!(run("len(5)"), Err(ErrorHandler::ParseError(text("Expected a text"))));
    assert_eq!(run("substring(\"Hello, World!\", 7, 11)"), ok("World"));
    assert_eq!(run("substring(\"Hello\", -3, 1)"), ok("Hello"));
    assert_eq!(run("substring(\"Hello\", 2, 1)"), ok(""));
    assert_eq!(run("substring(\"Hello\", 9, 12)"), ok(""));
    assert_eq!(run("substring(\"Hello\", 1.9, 2.1)"), ok("e"));
    assert_eq!(run("strip(\"a-b_c-d\", \"-_\")"), ok("abcd"));
    assert_eq!(run("strip(\"abc\", \"\")"), ok("abc"));
    assert_eq!(run("replace(\"banana\", \"a\", \"o\")"), ok("bonono"));
    assert_eq!(run("replace(\"banana\", \"an\", \"xy\")"), ok("bxnxnx"));
    assert_eq!(run("replace(\"banana\", \"\", \"o\")"), Err(ErrorHandler::SyntaxError(text("Expected a character"))));
    assert_eq!(run("upper(\"abc d\u{e9}\")"), ok("ABC D\u{c9}"));
    assert_eq!(run("lower(\"ABC D\u{c9}\")"), ok("abc d\u{e9}"));
    assert_eq!(run("upper(\"stra\u{df}e\")"), ok("STRASSE"));
    assert_eq!(run("upper(1)"), Err(ErrorHandler::ParseError(text("Expected a text"))));
    assert_eq!(run("len()"), Err(ErrorHandler::TooFewArguments(text("len"))));
    assert_eq!(run("len(\"a\", \"b\")"), Err(ErrorHandler::TooManyArguments(text("len"))));
    assert_eq!(run("substring(\"a\", 1)"), Err(ErrorHandler::TooFewArguments(text("substring"))));
}

#[test]
fn print_collects_lines() {
    assert_eq!(run("print()"), ok(""));
    assert_eq!(run("print(1) print(\"two\", 3) 4"), ok("1\ntwo 3"));
    let mut interpreter = Interpreter::new();
    assert_eq!(interpreter.eval("print(1); 1 / 0"), Err(ErrorHandler::DivisionByZero));
    assert_eq!(interpreter.output, vec!["1"]);
    assert_eq!(interpreter.eval("print(2)"), ok("1\n2"));
    assert!(interpreter.output.is_empty());
}

#[test]
fn debug_lists_the_tables() {
    assert_eq!(
        run("let x:int = 5; let s:string = \"a\"; func f():int { return 1; } debug()"),
        ok("x: 5\ns: a\nf")
    );
    assert_eq!(run("debug()"), ok("OK"));
}

#[test]
fn exit_ends_the_run() {
    let mut interpreter = Interpreter::new();
    assert_eq!(interpreter.eval("print(1); exit(3); print(2)"), Err(ErrorHandler::ExitRequested(3)));
    assert_eq!(interpreter.output, vec!["1"]);
    assert_eq!(run("exit(2.9)"), Err(ErrorHandler::ExitRequested(2)));
    assert_eq!(run("exit(-1)"), Err(ErrorHandler::ExitRequested(-1)));
    assert_eq!(run("exit(99999999999)"), Err(ErrorHandler::ExitRequested(i32::MAX)));
    assert_eq!(run("exit(\"a\")"), Err(ErrorHandler::ParseError(text("Expected a number"))));
}

#[test]
fn loops_run_while_their_condition_holds() {
    assert_eq!(run("let i:int = 0; let s:int = 0; while (i < 10) { i = i + 1; s = s + i; } s"), ok("55"));
    assert_eq!(run("let i:int = 3; for (i; i < 6; i = i + 1) { print(i); }"), ok("3\n4\n5"));
    assert_eq!(run("let i:int = 9; for (i; i < 6; i = i + 1) { print(i); } i"), ok("9"));
    assert_eq!(run("while (0) { 1 / 0; }"), ok("OK"));
    assert_eq!(run("while (1) { 1 / 0; }"), Err(ErrorHandler::DivisionByZero));
}

#[test]
fn loops_are_bounded() {
    let mut interpreter = Interpreter::new();
    interpreter.loop_limit = 10;
    assert_eq!(interpreter.eval("while (1) { }"), Err(ErrorHandler::LoopLimitExceeded));
    assert_eq!(interpreter.eval("let i:int = 0; while (i < 10) { i = i + 1; } i"), ok("10"));
    assert_eq!(
        interpreter.eval("let j:int = 0; while (j < 11) { j = j + 1; } j"),
        Err(ErrorHandler::LoopLimitExceeded)
    );
}

#[test]
fn calls_work_on_a_copy_of_the_variables() {
    let source = "let x:int = 1; func f(a:int):int { x = x + a; let y:int = 7; return x; } print(f(10)); print(x);";
    assert_eq!(run(source), ok("11\n1"));
    assert_eq!(
        run("func f():int { let y:int = 7; return y; } f(); f()"),
        ok("7")
    );
    assert_eq!(
        run("func f():int { func g():int { return 2; } return g(); } f()"),
        ok("2")
    );
}

#[test]
fn calls_give_their_last_value_or_their_return() {
    assert_eq!(run("func f():int { 1; 2 } f()"), ok("2"));
    assert_eq!(run("func f():int { return 1; 2 } f()"), ok("1"));
    assert_eq!(run("func f():void { } f()"), ok("OK"));
    assert_eq!(run("func f():int { while (1) { if (1) { return 5; } } } f() + 1"), ok("6"));
    assert_eq!(run("func f():void { print(\"in\"); } f(); print(\"out\");"), ok("in\nout"));
}

#[test]
fn arguments_are_evaluated_left_to_right_by_the_caller() {
    let source = "func show(a:int):int { print(a); return a; } func add(a:int, b:int):int { return a + b; } add(show(1), show(2))";
    assert_eq!(run(source), ok("1\n2"));
    assert_eq!(
        run("func f(a:int, b:int):int { return a; } f(1 / 0, exit(1))"),
        Err(ErrorHandler::DivisionByZero)
    );
}

#[test]
fn recursion_is_guarded() {
    let fib = "func fib(n:int):int { if (n < 2) { return n; } return fib(n - 1) + fib(n - 2); } fib(15)";
    assert_eq!(run(fib), ok("610"));
    let mut interpreter = Interpreter::new();
    interpreter.max_depth = 5;
    let count = "func count(n:int):int { if (n == 0) { return 0; } return 1 + count(n - 1); }";
    assert_eq!(interpreter.eval(count), ok("OK"));
    assert_eq!(interpreter.eval("count(4)"), ok("4"));
    assert_eq!(interpreter.eval("count(5)"), Err(ErrorHandler::StackOverflow));
    interpreter.max_depth = 0;
    assert_eq!(interpreter.eval("count(0)"), Err(ErrorHandler::StackOverflow));
}

#[test]
fn runs_share_their_declarations() {
    let mut interpreter = Interpreter::new();
    assert_eq!(interpreter.eval("let x:int = 5;"), ok("OK"));
    assert_eq!(interpreter.eval("x"), ok("5"));
    assert_eq!(interpreter.eval("let x:int = 6;"), Err(ErrorHandler::VariableAlreadyExists(text("x"))));
    assert_eq!(interpreter.eval("x = 2.5;"), Err(ErrorHandler::TypeError(text("int"), text("float"))));
    assert_eq!(interpreter.eval("x"), ok("5"));
    assert_eq!(interpreter.eval(""), Err(ErrorHandler::NoProgram));
}

#[test]
fn a_program_that_does_not_parse_changes_nothing() {
    let mut interpreter = Interpreter::new();
    assert_eq!(interpreter.eval("let x:int = 5; print(x); let y:int = ;"), Err(ErrorHandler::UnknownToken(text(";"))));
    assert_eq!(interpreter.variables.len(), 0);
    assert!(interpreter.output.is_empty());
    assert_eq!(interpreter.eval("let x:int = 6; x"), ok("6"));
}

#[test]
fn tokens_can_be_run_directly() {
    let mut interpreter = Interpreter::new();
    let tokens = tokenize("let x:int = 2; x ^ 3");
    assert_eq!(interpreter.eval_tokens(&tokens), ok("8"));
    let words: Vec<String> = vec![text("x"), text("+"), text("1")];
    assert_eq!(interpreter.eval_tokens(&words), ok("3"));
}

#[test]
fn errors_have_one_line_each() {
    let name = || text("f");
    assert_eq!(ErrorHandler::NoProgram.to_string(), "No program to run!");
    assert_eq!(ErrorHandler::DivisionByZero.to_string(), "Division by zero!");
    assert_eq!(ErrorHandler::TooManyArguments(name()).to_string(), "Too many arguments for function: f!");
    assert_eq!(ErrorHandler::TooFewArguments(name()).to_string(), "Too few arguments for function: f!");
    assert_eq!(ErrorHandler::SyntaxError(text("bad")).to_string(), "Syntax error: bad");
    assert_eq!(ErrorHandler::ParseError(text("bad")).to_string(), "Parse error: bad");
    assert_eq!(ErrorHandler::TypeError(text("int"), text("float")).to_string(), "Type error: expected int, found float");
    assert_eq!(ErrorHandler::VariableNotFound(text("x")).to_string(), "Variable not found: x");
    assert_eq!(ErrorHandler::FunctionNotFound(name()).to_string(), "Function not found: f");
    assert_eq!(ErrorHandler::FunctionOrVariableNotFound(name()).to_string(), "Function or variable not found: f");
    assert_eq!(ErrorHandler::UnknownToken(text("@")).to_string(), "Unknown token: @");
    assert_eq!(ErrorHandler::UnexpectedToken(text(";"), text("}")).to_string(), "Unexpected token: expected ;, found }");
    assert_eq!(ErrorHandler::ReturnOutsideFunction.to_string(), "Return statement outside function!");
    assert_eq!(ErrorHandler::UnexpectedEndOfProgram.to_string(), "Unexpected end of program!");
    assert_eq!(ErrorHandler::VariableAlreadyExists(text("x")).to_string(), "Variable already exists: x");
    assert_eq!(ErrorHandler::StackOverflow.to_string(), "Stack overflow!");
    assert_eq!(ErrorHandler::NumberOutOfRange.to_string(), "Number out of range!");
    assert_eq!(ErrorHandler::LoopLimitExceeded.to_string(), "Loop limit exceeded!");
    assert_eq!(ErrorHandler::ExitRequested(3).to_string(), "Exit requested");
}
