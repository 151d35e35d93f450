use rss::ast::ASTNode;
use rss::error_handler::ErrorHandler;
use rss::interp::variable_value::VariableValue;
use rss::interp::{Interpreter, Outcome};
use rss::number::Number;
use rss::types::Type;

fn text(s: &str) -> String {
    s.to_string()
}

#[test]
fn output_is_only_added_to() {
    let mut interpreter = Interpreter::new();
    let steps = [
        "print(1);",
        "let x:int = 2; print(x);",
        "func f():int { print(3); return 1 / 0; }",
        "f()",
        "if (1) { print(4); } else { print(5); }",
        "print(6); exit(0)",
        "while (x < 4) { print(x); x = x + 1; }",
    ];
    let tree = rss::parser::parse(&rss::tokenizer::tokenize(&steps.join(" "))).unwrap();
    let mut before: Vec<String> = Vec::new();
    for node in &tree {
        let _ = interpreter.eval_ast(node, 20);
        assert!(interpreter.output.len() >= before.len());
        assert_eq!(&interpreter.output[..before.len()], &before[..]);
        before = interpreter.output.clone();
    }
    assert_eq!(before, vec!["1", "2", "3", "4", "6", "2", "3"]);
}

#[test]
fn a_call_keeps_the_variables_of_its_caller() {
    let mut interpreter = Interpreter::new();
    let source = "let x:int = 1; func f(x:int):int { x = x + 1; let y:int = x; del x; return y; } f(10)";
    assert_eq!(interpreter.eval(source), Ok(text("11")));
    assert_eq!(interpreter.variables.len(), 1);
    assert_eq!(interpreter.variables.name_at(0), "x");
    assert_eq!(interpreter.variables.value_at(0), &VariableValue::Number(Number::from_int(1)));
    assert_eq!(interpreter.functions.len(), 1);
}

#[test]
fn a_declared_whole_number_reads_back_as_a_number() {
    for typ in [Type::Int, Type::Float] {
        for i in [0i64, 5, -7, i64::MAX, i64::MIN] {
            let mut whole = Interpreter::new();
            let declare = ASTNode::Let(text("x"), typ, Box::new(ASTNode::Int(i)));
            assert_eq!(whole.eval_ast(&declare, 1), Ok(Outcome::Nothing));
            let mut promoted = Interpreter::new();
            let declare = ASTNode::Let(text("x"), typ, Box::new(ASTNode::Float(Number::from_int(i))));
            assert_eq!(promoted.eval_ast(&declare, 1), Ok(Outcome::Nothing));
            let read = ASTNode::VarRef(text("x"));
            let value = Outcome::Value(VariableValue::Number(Number::from_int(i)));
            assert_eq!(whole.eval_ast(&read, 1), Ok(Outcome::Value(VariableValue::Number(Number::from_int(i)))));
            assert_eq!(promoted.eval_ast(&read, 1), Ok(value));
        }
    }
}

#[test]
fn a_call_at_depth_zero_overflows() {
    let mut interpreter = Interpreter::new();
    let define = rss::parser::parse(&rss::tokenizer::tokenize("func f(a:int):int { return a; }")).unwrap();
    assert_eq!(interpreter.eval_ast(&define[0], 0), Ok(Outcome::Nothing));
    let call = ASTNode::FuncCall(text("f"), vec![ASTNode::Int(1)]);
    assert_eq!(interpreter.eval_ast(&call, 0), Err(ErrorHandler::StackOverflow));
    assert_eq!(
        interpreter.eval_ast(&call, 1),
        Ok(Outcome::Value(VariableValue::Number(Number::from_int(1))))
    );
    let wrong = ASTNode::FuncCall(text("f"), vec![]);
    assert_eq!(interpreter.eval_ast(&wrong, 0), Err(ErrorHandler::TooFewArguments(text("f"))));
}
