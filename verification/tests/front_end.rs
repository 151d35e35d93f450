use rss::ast::{ASTNode, BinaryOp, UnaryOp};
use rss::checker::check_type;
use rss::error_handler::ErrorHandler;
use rss::number::Number;
use rss::ast::printer::program_tokens;
use rss::parser::{canonical_tokens, parse, parse_with, SymbolTable};
use rss::tokenizer::{keeps, select_tokens, tokenize};
use rss::types::Type;
use rss::var_func::{Function, VariableInfo};

fn tree(source: &str) -> Result<Vec<ASTNode>, ErrorHandler> {
    parse(&tokenize(source))
}

fn one(source: &str) -> ASTNode {
    let mut nodes = tree(source).unwrap();
    assert_eq!(nodes.len(), 1);
    nodes.remove(0)
}

fn whole(i: i64) -> Box<ASTNode> {
    Box::new(ASTNode::Int(i))
}

fn binary(op: BinaryOp, lhs: Box<ASTNode>, rhs: Box<ASTNode>) -> Box<ASTNode> {
    Box::new(ASTNode::Binary(op, lhs, rhs))
}

fn text(s: &str) -> String {
    s.to_string()
}

#[test]
fn tokenize_operators_and_punctuation() {
    assert_eq!(
        tokenize("a==b!=c<=d>=e<f>g+h-i*j/k%l^m!n"),
        vec![
            "a", "==", "b", "!=", "c", "<=", "d", ">=", "e", "<", "f", ">", "g", "+", "h", "-",
            "i", "*", "j", "/", "k", "%", "l", "^", "m", "!", "n"
        ]
    );
    assert_eq!(tokenize("f(x,y){a:b;}"), vec!["f", "(", "x", ",", "y", ")", "{", "a", ":", "b", ";", "}"]);
}

#[test]
fn tokenize_drops_comments_and_space() {
    assert_eq!(tokenize("  \n\t "), Vec::<String>::new());
    assert_eq!(tokenize("// only a comment"), Vec::<String>::new());
    assert_eq!(tokenize("1 /* a\nb */ / 2 // c\n3"), vec!["1", "/", "2", "3"]);
    assert_eq!(tokenize(""), Vec::<String>::new());
}

#[test]
fn tokenize_keeps_text_whole() {
    assert_eq!(tokenize("\"a // b\" \"c\\\"d\""), vec!["\"a // b\"", "\"c\\\"d\""]);
    assert_eq!(tokenize("\"\""), vec!["\"\""]);
}

#[test]
fn select_tokens_keeps_what_is_no_comment_and_no_space() {
    let lexemes = vec![text("let"), text(" "), text("/* c */"), text("/"), text("// d"), text("\n"), text("\"s\"")];
    assert_eq!(select_tokens(&lexemes), vec!["let", "/", "\"s\""]);
    assert!(keeps("x"));
    assert!(keeps("/"));
    assert!(!keeps("//"));
    assert!(!keeps("/**/"));
    assert!(!keeps(" "));
    assert!(!keeps(""));
}

#[test]
fn check_type_takes_the_right_literals() {
    assert_eq!(check_type("int", ASTNode::Int(1)), Ok(ASTNode::Int(1)));
    assert_eq!(check_type("string", ASTNode::String(text("a"))), Ok(ASTNode::String(text("a"))));
    assert_eq!(check_type("bool", ASTNode::Boolean(true)), Ok(ASTNode::Boolean(true)));
    let half = Number::from_units(500_000_000).unwrap();
    assert_eq!(check_type("float", ASTNode::Float(half)), Ok(ASTNode::Float(half)));
}

#[test]
fn check_type_promotes_int_to_float() {
    assert_eq!(check_type("float", ASTNode::Int(5)), Ok(ASTNode::Float(Number::from_int(5))));
    assert_eq!(check_type("float", ASTNode::Int(-5)), Ok(ASTNode::Float(Number::from_int(-5))));
}

#[test]
fn check_type_refuses_other_literals() {
    let type_error = |e: &str, f: &str| Err(ErrorHandler::TypeError(text(e), text(f)));
    let half = Number::from_units(500_000_000).unwrap();
    assert_eq!(check_type("int", ASTNode::Float(half)), type_error("int", "float"));
    assert_eq!(check_type("int", ASTNode::String(text("a"))), type_error("int", "string"));
    assert_eq!(check_type("int", ASTNode::Boolean(true)), type_error("int", "bool"));
    assert_eq!(check_type("float", ASTNode::String(text("a"))), type_error("float", "string"));
    assert_eq!(check_type("float", ASTNode::Boolean(true)), type_error("float", "bool"));
    assert_eq!(check_type("string", ASTNode::Int(1)), type_error("string", "int"));
    assert_eq!(check_type("string", ASTNode::Float(half)), type_error("string", "float"));
    assert_eq!(check_type("string", ASTNode::Boolean(false)), type_error("string", "bool"));
    assert_eq!(check_type("bool", ASTNode::Int(1)), type_error("bool", "int"));
    assert_eq!(check_type("bool", ASTNode::Float(half)), type_error("bool", "float"));
    assert_eq!(check_type("bool", ASTNode::String(text("a"))), type_error("bool", "string"));
}

#[test]
fn check_type_leaves_other_nodes() {
    let sum = ASTNode::Binary(BinaryOp::Add, whole(1), whole(2));
    assert_eq!(
        check_type("string", sum),
        Ok(ASTNode::Binary(BinaryOp::Add, whole(1), whole(2)))
    );
    assert_eq!(check_type("int", ASTNode::VarRef(text("x"))), Ok(ASTNode::VarRef(text("x"))));
}

#[test]
fn check_type_refuses_unknown_types() {
    assert_eq!(
        check_type("void", ASTNode::Int(1)),
        Err(ErrorHandler::ParseError(text("Unknown type: void")))
    );
    assert_eq!(
        check_type("number", ASTNode::VarRef(text("x"))),
        Err(ErrorHandler::ParseError(text("Unknown type: number")))
    );
}

#[test]
fn product_binds_tighter_than_sum() {
    assert_eq!(
        one("1 + 2 * 3"),
        ASTNode::Binary(BinaryOp::Add, whole(1), binary(BinaryOp::Mul, whole(2), whole(3)))
    );
    assert_eq!(
        one("1 * 2 + 3"),
        ASTNode::Binary(BinaryOp::Add, binary(BinaryOp::Mul, whole(1), whole(2)), whole(3))
    );
}

#[test]
fn chains_group_from_the_left() {
    assert_eq!(
        one("8 - 4 - 2"),
        ASTNode::Binary(BinaryOp::Sub, binary(BinaryOp::Sub, whole(8), whole(4)), whole(2))
    );
    assert_eq!(
        one("8 / 4 % 2"),
        ASTNode::Binary(BinaryOp::Mod, binary(BinaryOp::Div, whole(8), whole(4)), whole(2))
    );
}

#[test]
fn powers_group_from_the_right() {
    assert_eq!(
        one("2 ^ 3 ^ 2"),
        ASTNode::Binary(BinaryOp::Pow, whole(2), binary(BinaryOp::Pow, whole(3), whole(2)))
    );
}

#[test]
fn signs_bind_tighter_than_powers() {
    assert_eq!(
        one("-2 ^ 2"),
        ASTNode::Binary(BinaryOp::Pow, Box::new(ASTNode::Unary(UnaryOp::Neg, whole(2))), whole(2))
    );
    assert_eq!(
        one("!!1"),
        ASTNode::Unary(UnaryOp::Not, Box::new(ASTNode::Unary(UnaryOp::Not, whole(1))))
    );
}

#[test]
fn equality_binds_loosest() {
    assert_eq!(
        one("1 + 1 < 3 == 2 > 1"),
        ASTNode::Binary(
            BinaryOp::Eq,
            binary(BinaryOp::Lt, binary(BinaryOp::Add, whole(1), whole(1)), whole(3)),
            binary(BinaryOp::Gt, whole(2), whole(1)),
        )
    );
}

#[test]
fn brackets_group() {
    assert_eq!(
        one("(1 + 2) * 3"),
        ASTNode::Binary(BinaryOp::Mul, binary(BinaryOp::Add, whole(1), whole(2)), whole(3))
    );
}

#[test]
fn literals_are_parsed() {
    assert_eq!(one("\"hi\""), ASTNode::String(text("hi")));
    assert_eq!(one("true"), ASTNode::Boolean(true));
    assert_eq!(one("false;"), ASTNode::Boolean(false));
    assert_eq!(one("2.5"), ASTNode::Float(Number::from_units(2_500_000_000).unwrap()));
}

#[test]
fn let_is_checked_and_promoted() {
    assert_eq!(
        one("let x:float = 5;"),
        ASTNode::Let(text("x"), Type::Float, Box::new(ASTNode::Float(Number::from_int(5))))
    );
    assert_eq!(
        tree("let x:int = 5.0;"),
        Err(ErrorHandler::TypeError(text("int"), text("float")))
    );
    assert_eq!(
        tree("let x:string = true;"),
        Err(ErrorHandler::TypeError(text("string"), text("bool")))
    );
    assert_eq!(
        tree("let x:thing = 1;"),
        Err(ErrorHandler::ParseError(text("Unknown type: thing")))
    );
}

#[test]
fn assignment_is_checked_against_the_declared_type() {
    assert_eq!(
        tree("let x:int = 5; x = 2.5;"),
        Err(ErrorHandler::TypeError(text("int"), text("float")))
    );
    let nodes = tree("let x:float = 5; x = 2;").unwrap();
    assert_eq!(
        nodes[1],
        ASTNode::Assign(text("x"), Box::new(ASTNode::Float(Number::from_int(2))))
    );
}

#[test]
fn references_are_checked_by_their_known_literal() {
    assert_eq!(
        tree("let y:float = 1.5; let x:int = y;"),
        Err(ErrorHandler::TypeError(text("int"), text("float")))
    );
    let nodes = tree("let y:int = 1; let x:float = y;").unwrap();
    assert_eq!(
        nodes[1],
        ASTNode::Let(text("x"), Type::Float, Box::new(ASTNode::VarRef(text("y"))))
    );
    assert!(tree("let y:float = 1.5; y = 1 + 1; let x:int = y;").is_ok());
}

#[test]
fn names_are_declared_before_use() {
    assert_eq!(tree("x"), Err(ErrorHandler::VariableNotFound(text("x"))));
    assert_eq!(tree("x = 1;"), Err(ErrorHandler::VariableNotFound(text("x"))));
    assert_eq!(tree("del x;"), Err(ErrorHandler::VariableNotFound(text("x"))));
    assert_eq!(tree("f(1)"), Err(ErrorHandler::FunctionNotFound(text("f"))));
    assert_eq!(
        tree("let x:int = 1; let x:int = 2;"),
        Err(ErrorHandler::VariableAlreadyExists(text("x")))
    );
    assert_eq!(tree("let x:int = 1; del x; x"), Err(ErrorHandler::VariableNotFound(text("x"))));
    assert_eq!(
        tree("for (i; i < 3; i = i + 1) { }"),
        Err(ErrorHandler::VariableNotFound(text("i")))
    );
}

#[test]
fn syntax_errors_are_reported() {
    assert_eq!(tree(""), Err(ErrorHandler::NoProgram));
    assert_eq!(tree("// nothing"), Err(ErrorHandler::NoProgram));
    assert_eq!(tree("1 +"), Err(ErrorHandler::UnexpectedEndOfProgram));
    assert_eq!(tree("(1 + 2"), Err(ErrorHandler::UnexpectedEndOfProgram));
    assert_eq!(tree("let x"), Err(ErrorHandler::UnexpectedEndOfProgram));
    assert_eq!(
        tree("let x = 5;"),
        Err(ErrorHandler::UnexpectedToken(text(":"), text("=")))
    );
    assert_eq!(
        tree("let 5:int = 5;"),
        Err(ErrorHandler::UnexpectedToken(text("identifier"), text("5")))
    );
    assert_eq!(
        tree("let x:int = 5 let"),
        Err(ErrorHandler::UnexpectedToken(text(";"), text("let")))
    );
    assert_eq!(tree("(1 ; 2)"), Err(ErrorHandler::UnexpectedToken(text(")"), text(";"))));
    assert_eq!(tree("1 + ;"), Err(ErrorHandler::UnknownToken(text(";"))));
    assert_eq!(tree("return 1;"), Err(ErrorHandler::ReturnOutsideFunction));
    assert_eq!(tree("if (1) { return 1; }"), Err(ErrorHandler::ReturnOutsideFunction));
    assert_eq!(tree("99999999999999999999"), Err(ErrorHandler::NumberOutOfRange));
    assert_eq!(tree("while (1) {"), Err(ErrorHandler::UnexpectedEndOfProgram));
}

#[test]
fn functions_know_themselves_and_their_parameters() {
    let nodes = tree("func f(a:int, b:float):int { return f(a, b); } f(1, 2)").unwrap();
    assert_eq!(
        nodes[0],
        ASTNode::FuncDef(
            text("f"),
            vec![(text("a"), Type::Int), (text("b"), Type::Float)],
            Type::Int,
            vec![ASTNode::Return(Box::new(ASTNode::FuncCall(
                text("f"),
                vec![ASTNode::VarRef(text("a")), ASTNode::VarRef(text("b"))]
            )))],
        )
    );
    assert_eq!(tree("func f(a:int):int { return a; } a"), Err(ErrorHandler::VariableNotFound(text("a"))));
    assert_eq!(
        tree("func f():int { func g():int { return 1; } return g(); } g()"),
        Err(ErrorHandler::FunctionNotFound(text("g")))
    );
}

#[test]
fn control_flow_is_parsed() {
    assert_eq!(
        one("if (1) { 2 } elif (3) { 4; } elif (5) { } else { 6 }"),
        ASTNode::IEE(
            whole(1),
            vec![ASTNode::Int(2)],
            vec![(ASTNode::Int(3), vec![ASTNode::Int(4)]), (ASTNode::Int(5), vec![])],
            Some(vec![ASTNode::Int(6)]),
        )
    );
    assert_eq!(one("while (0) { 1; 2; }"), ASTNode::While(whole(0), vec![ASTNode::Int(1), ASTNode::Int(2)]));
    assert_eq!(
        one("switch (10) { case 10 { 2 } case 30 { } default { 4 } }"),
        ASTNode::Switch(
            whole(10),
            vec![(ASTNode::Int(10), vec![ASTNode::Int(2)]), (ASTNode::Int(30), vec![])],
            Some(vec![ASTNode::Int(4)]),
        )
    );
    let nodes = tree("let i:int = 0; for (i; i < 3; i = i + 1) { i; }").unwrap();
    assert_eq!(
        nodes[1],
        ASTNode::For(
            text("i"),
            binary(BinaryOp::Lt, Box::new(ASTNode::VarRef(text("i"))), whole(3)),
            Box::new(ASTNode::Assign(
                text("i"),
                binary(BinaryOp::Add, Box::new(ASTNode::VarRef(text("i"))), whole(1))
            )),
            vec![ASTNode::VarRef(text("i"))],
        )
    );
}

#[test]
fn the_table_is_threaded_through_programs() {
    let (_, table) = parse_with(&tokenize("let x:int = 1; func f():int { return 1; }"), SymbolTable::new()).unwrap();
    let (nodes, table) = parse_with(&tokenize("x + f()"), table).unwrap();
    assert_eq!(nodes.len(), 1);
    assert_eq!(table.variables.len(), 1);
    assert_eq!(table.functions.len(), 1);
    assert_eq!(
        parse_with(&tokenize("let x:int = 2;"), table).err(),
        Some(ErrorHandler::VariableAlreadyExists(text("x")))
    );
}

#[test]
fn entries_hold_what_they_are_given() {
    let v = VariableInfo::new(text("x"), text("int"), Some(ASTNode::Int(1)));
    assert_eq!(v.name, "x");
    assert_eq!(v.typ, "int");
    assert_eq!(v.value, Some(ASTNode::Int(1)));
    let f = Function::new(text("f"), vec![(text("a"), text("int"))], vec![ASTNode::Int(1)], text("int"));
    assert_eq!(f.name, "f");
    assert_eq!(f.params, vec![(text("a"), text("int"))]);
    assert_eq!(f.body, vec![ASTNode::Int(1)]);
    assert_eq!(f.return_type, "int");
}

#[test]
fn canonical_text_of_statements() {
    assert_eq!(one("let x:float = 5;").to_string(), "let x : float = 5.0 ;");
    assert_eq!(one("1+2*3").to_string(), "( 1 + ( 2 * 3 ) ) ;");
    assert_eq!(one("-2^2").to_ast(), "( - 2 ^ 2 ) ;");
    assert_eq!(one("concat(\"a\", 1, true)").to_string(), "concat ( \"a\" , 1 , true ) ;");
    assert_eq!(
        one("if (1) { 2 } elif (3) { } else { 4 }").to_string(),
        "if ( 1 ) { 2 ; } elif ( 3 ) { } else { 4 ; }"
    );
    assert_eq!(
        one("func f(a:int, b:string):bool { return a; }").to_string(),
        "func f ( a : int , b : string ) : bool { return a ; }"
    );
    assert_eq!(
        one("switch (10) { case 10 { 2 } default { 3 } }").to_string(),
        "switch ( 10 ) { case 10 { 2 ; } default { 3 ; } }"
    );
}

#[test]
fn canonical_text_reads_back_as_the_same_tree() {
    let sources = [
        "let x:float = 5; x = x * 2.5 - 1 / 3; del x;",
        "1 + 2 * 3 - -4 ^ 2 ^ !0 % 5 == 6 < 7",
        "func fact(n:int):int { if (n==0) { return 1; } else { return n * fact(n-1); } } fact(5)",
        "let i:int = 0; for (i; i < 10; i = i + 1) { print(i, \"a b\"); while (i > 100) { i = 0; } }",
        "switch (max(10, 20)) { case 10 { 1 } case 20 { concat() } default { } }",
        "if (1 <= 2) { } elif (2 >= 1) { 1; } elif (1 != 1) { 2 }",
    ];
    for source in sources {
        let first = tree(source).unwrap();
        let mut written = String::new();
        for node in &first {
            written.push_str(&node.to_string());
            written.push(' ');
        }
        let second = tree(&written).unwrap();
        assert_eq!(first, second);
        let mut tokens: Vec<String> = Vec::new();
        for node in &first {
            tokens.extend(node.to_tokens());
        }
        assert_eq!(tokens, program_tokens(&first));
        assert_eq!(canonical_tokens(&tokenize(source)), Ok(tokens.clone()));
        assert_eq!(canonical_tokens(&tokens), Ok(tokens.clone()));
        assert_eq!(parse(&tokens), Ok(first));
    }
}

#[test]
fn words_of_the_language_are_no_names() {
    for word in [
        "let", "del", "return", "if", "elif", "else", "while", "for", "func", "switch", "case",
        "default", "true", "false",
    ] {
        let declare = format!("let {}:int = 1;", word);
        assert_eq!(
            tree(&declare),
            Err(ErrorHandler::UnexpectedToken(text("identifier"), text(word)))
        );
    }
    assert_eq!(tree("1 + let"), Err(ErrorHandler::UnknownToken(text("let"))));
    assert_eq!(tree("else"), Err(ErrorHandler::UnknownToken(text("else"))));
    assert!(tree("let lets:int = 1; let iffy:int = lets;").is_ok());
}

#[test]
fn types_are_kept_under_the_names_of_their_tags() {
    let source = "func f(a:number, b:float):thing { return b; }";
    let (nodes, table) = parse_with(&tokenize(source), SymbolTable::new()).unwrap();
    assert_eq!(
        nodes[0].to_string(),
        "func f ( a : void , b : float ) : void { return b ; }"
    );
    let f = table.functions.value_at(0);
    assert_eq!(f.params, vec![(text("a"), text("void")), (text("b"), text("float"))]);
    assert_eq!(f.return_type, "void");
    assert_eq!(canonical_tokens(&tokenize(source)), Ok(nodes[0].to_tokens()));
}

#[test]
fn canonical_form_of_a_program_that_does_not_parse() {
    assert_eq!(canonical_tokens(&tokenize("1 +")), Err(ErrorHandler::UnexpectedEndOfProgram));
    assert_eq!(canonical_tokens(&tokenize("")), Err(ErrorHandler::NoProgram));
}
