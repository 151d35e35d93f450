use rss::error_handler::ErrorHandler;
use rss::interp::Interpreter;
use rss::tokenizer::tokenize;

fn run(source: &str) -> Result<String, ErrorHandler> {
    let mut interpreter = Interpreter::new();
    interpreter.eval(source)
}

#[test]
fn tokenize_splits_a_declaration() {
    let tokens = tokenize("let x:int = 5; // five\n/* more */ x");
    assert_eq!(tokens, vec!["let", "x", ":", "int", "=", "5", ";", "x"]);
}

#[test]
fn tokenize_keeps_quotes_and_commas() {
    let tokens = tokenize("concat(\"a b\", 1.5) <= 2");
    assert_eq!(tokens, vec!["concat", "(", "\"a b\"", ",", "1.5", ")", "<=", "2"]);
}

#[test]
fn declared_int_is_read_back() {
    assert_eq!(run("let x:int = 5; x"), Ok("5".to_string()));
}

#[test]
fn division_by_zero_fails() {
    assert_eq!(run("1 / 0"), Err(ErrorHandler::DivisionByZero));
    assert_eq!(run("1 % 0"), Err(ErrorHandler::DivisionByZero));
}

#[test]
fn one_half_is_exact() {
    assert_eq!(run("1 / 2"), Ok("0.5".to_string()));
}

#[test]
fn first_branch_is_taken() {
    assert_eq!(run("if (1==1) { 1 } elif (1==1) { 2 } else { 3 }"), Ok("1".to_string()));
}

#[test]
fn factorial_of_five() {
    let source = "func factorial(n:int):int { if (n==0) { return 1; } else { return n * factorial(n-1); } } factorial(5)";
    assert_eq!(run(source), Ok("120".to_string()));
}

#[test]
fn factorial_checks_its_arity() {
    let define = "func factorial(n:int):int { if (n==0) { return 1; } else { return n * factorial(n-1); } }";
    let mut interpreter = Interpreter::new();
    assert_eq!(interpreter.eval(define), Ok("OK".to_string()));
    assert_eq!(
        interpreter.eval("factorial(1, 2)"),
        Err(ErrorHandler::TooManyArguments("factorial".to_string()))
    );
    assert_eq!(
        interpreter.eval("factorial()"),
        Err(ErrorHandler::TooFewArguments("factorial".to_string()))
    );
}

#[test]
fn concat_joins_texts_and_numbers() {
    assert_eq!(run("concat(\"a\",\"b\",1)"), Ok("ab1".to_string()));
}

#[test]
fn substring_has_an_inclusive_end() {
    assert_eq!(run("substring(\"Hello, World!\",0,4)"), Ok("Hello".to_string()));
    assert_eq!(run("substring(\"Hello, World!\",0,5)"), Ok("Hello,".to_string()));
    assert_eq!(run("substring(\"Hello\",3,99)"), Ok("lo".to_string()));
}

#[test]
fn undeclared_names_are_not_found() {
    assert_eq!(run("y"), Err(ErrorHandler::VariableNotFound("y".to_string())));
    assert_eq!(run("y = 1;"), Err(ErrorHandler::VariableNotFound("y".to_string())));
    assert_eq!(run("del y;"), Err(ErrorHandler::VariableNotFound("y".to_string())));
}

#[test]
fn endless_recursion_overflows_the_stack() {
    let mut interpreter = Interpreter::new();
    interpreter.max_depth = 50;
    let source = "func down(n:int):int { return down(n + 1); } down(0)";
    assert_eq!(interpreter.eval(source), Err(ErrorHandler::StackOverflow));
}

#[test]
fn print_buffers_lines() {
    assert_eq!(run("print(\"a\", 1); print(2.5)"), Ok("a 1\n2.5".to_string()));
}

#[test]
fn while_counts() {
    assert_eq!(run("let i:int = 0; while (i < 5) { i = i + 1; } i"), Ok("5".to_string()));
}

#[test]
fn for_visits_each_integer() {
    let source = "let i:int = 0; let s:int = 0; for (i; i < 4; i = i + 1) { s = s + i; } s";
    assert_eq!(run(source), Ok("6".to_string()));
}
