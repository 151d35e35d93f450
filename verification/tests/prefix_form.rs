use rss::interp::error_handler::ErrorHandler;
use rss::interp::parser::{parse, tokenize, ASTNode};

fn text(s: &str) -> String {
    s.to_string()
}

fn value(s: &str) -> ASTNode {
    ASTNode::Value(text(s))
}

fn parse_error(s: &str) -> ErrorHandler {
    ErrorHandler::ParseError(text(s))
}

#[test]
fn prefix_tokens_are_cut_at_brackets_and_blanks() {
    assert_eq!(tokenize("(add 1 2)"), vec!["(", "add", "1", "2", ")"]);
    assert_eq!(tokenize("(mul(add 1\n2)\t3)"), vec!["(", "mul", "(", "add", "1", "2", ")", "3", ")"]);
    assert_eq!(tokenize("  a   b  "), vec!["a", "b"]);
    assert_eq!(tokenize(""), Vec::<String>::new());
    assert_eq!(tokenize("abc"), vec!["abc"]);
}

#[test]
fn prefix_texts_run_from_quote_to_quote() {
    assert_eq!(tokenize("(print 'a (b) c' x)"), vec!["(", "print", "'a (b) c'", "x", ")"]);
    assert_eq!(tokenize("ab'cd'ef"), vec!["ab", "'cd'", "ef"]);
    assert_eq!(tokenize("''"), vec!["''"]);
    assert_eq!(tokenize("'open (x"), vec!["'open (x"]);
}

#[test]
fn prefix_forms_are_read() {
    assert_eq!(
        parse(&tokenize("(add 1 (mul x 'two') ())")),
        Ok((
            ASTNode::Operator(
                text("add"),
                vec![
                    value("1"),
                    ASTNode::Operator(text("mul"), vec![value("x"), ASTNode::StringValue(text("two"))]),
                    ASTNode::NoOp,
                ]
            ),
            11
        ))
    );
    assert_eq!(parse(&tokenize("()")), Ok((ASTNode::NoOp, 2)));
    assert_eq!(parse(&tokenize("(f) (g)")), Ok((ASTNode::Operator(text("f"), vec![]), 3)));
    assert_eq!(parse(&tokenize("(f '')")), Ok((ASTNode::Operator(text("f"), vec![ASTNode::StringValue(text(""))]), 4)));
}

#[test]
fn prefix_forms_need_their_brackets() {
    assert_eq!(parse(&tokenize("")), Err(parse_error("Empty expression")));
    assert_eq!(parse(&tokenize("add 1 2")), Err(parse_error("Expected '('. Good luck!")));
    assert_eq!(parse(&tokenize("(add 1 2")), Err(parse_error("Expected ')'. Good luck!")));
    assert_eq!(parse(&tokenize("(")), Err(parse_error("Expected ')'. Good luck!")));
    assert_eq!(parse(&tokenize("(add (mul 1")), Err(parse_error("Expected ')'. Good luck!")));
}

#[test]
fn prefix_nodes_can_be_copied() {
    let (node, _) = parse(&tokenize("(if (lt x 1) 'a' ())")).unwrap();
    assert_eq!(node.clone(), node);
}

#[test]
fn prefix_errors_have_one_line_each() {
    assert_eq!(ErrorHandler::DivisionByZero.to_string(), "Error: Division by zero");
    assert_eq!(parse_error("bad").to_string(), "Error: Parse error - bad");
    assert_eq!(ErrorHandler::VariableNotFound(text("x")).to_string(), "Error: Variable 'x' not found");
    assert_eq!(
        ErrorHandler::FunctionOrOperatorNotFound(text("f")).to_string(),
        "Error: Function or operator 'f' not found"
    );
}
