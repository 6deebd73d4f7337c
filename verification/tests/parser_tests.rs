use lambda_lang::lambda_parser::expression::ExprNode;
use lambda_lang::lambda_parser::statement::Statement;
use lambda_lang::lambda_parser::tokenization::{get_operator, tokenize, BindingPower, Token, TokenHelpers};
use lambda_lang::lambda_jit::assembler::{assemble, group, tokenize as asm_tokenize, Token as AsmToken, TGroupType};

fn show(e: &ExprNode) -> String {
    match e {
        ExprNode::BinaryOperation { op, operands } => format!("({} {} {})", show(&operands.0), op, show(&operands.1)),
        ExprNode::UnaryOperation { op, operand } => format!("({}{})", op, show(operand)),
        ExprNode::CallOperation { caller, args } => {
            let a: Vec<String> = args.iter().map(show).collect();
            format!("{}({})", caller, a.join(", "))
        },
        ExprNode::Ident(s) => s.clone(),
        ExprNode::Num(n) => n.to_string(),
        ExprNode::Error(s) => format!("<{}>", s),
        ExprNode::Void => "void".to_string(),
        _ => "?".to_string(),
    }
}

fn parse(src: &str) -> Result<ExprNode, String> {
    let mut t = tokenize(src);
    ExprNode::from_tokens(&mut t)
}

#[test]
fn operator_longest_first() {
    let (len, op) = get_operator("**2").unwrap();
    assert_eq!((len, op.token), (2, "**"));
    assert_eq!(op.bp, BindingPower::Binary(30, 31));
    let (len, op) = get_operator("= x").unwrap();
    assert_eq!((len, op.token), (1, "="));
    assert!(get_operator("x").is_none());
}

#[test]
fn precedence_and_associativity() {
    assert_eq!(show(&parse("1 + 2 * 3").unwrap()), "(1 + (2 * 3))");
    assert_eq!(show(&parse("1 - 2 - 3").unwrap()), "((1 - 2) - 3)");
    assert_eq!(show(&parse("-x * 2").unwrap()), "((-x) * 2)");
    assert_eq!(show(&parse("2x").unwrap()), "(2 * x)");
    assert_eq!(show(&parse("(1 + 2) * 3").unwrap()), "((1 + 2) * 3)");
    assert_eq!(show(&parse("f(1, y)").unwrap()), "f(1, y)");
    assert_eq!(show(&parse("2(3)").unwrap()), "<Expected function identifier, got expression>");
}

#[test]
fn expression_errors() {
    assert!(matches!(parse("* 2"), Err(m) if m == "Expected unary operator, got *"));
    assert_eq!(show(&parse("").unwrap()), "<Didnt expect end of tokens>");
}

#[test]
fn statements() {
    let mut t = tokenize("f(x, y) = x + y\nif x { 1 } else { 2 }\n3");
    let block = Statement::from_tokens(&mut t).unwrap();
    assert_eq!(block.len(), 3);
    match &block[0] {
        Statement::FunctionDeclaration { name, args, body } => {
            assert_eq!(name, "f");
            assert_eq!(args, &vec!["x".to_string(), "y".to_string()]);
            assert_eq!(body.len(), 1);
        },
        _ => panic!("expected a declaration"),
    }
    match &block[1] {
        Statement::IfStatement { pred, code, else_block } => {
            assert_eq!(show(pred), "x");
            assert_eq!(code.len(), 1);
            assert_eq!(else_block.len(), 1);
        },
        _ => panic!("expected an if"),
    }
    assert!(matches!(&block[2], Statement::Expression(_)));
}

#[test]
fn statement_errors() {
    let mut t = tokenize("if x 1");
    assert!(matches!(Statement::from_tokens(&mut t), Err(m) if m == "Expected code block after 'if'"));
    let mut t = tokenize("f(x y) = 1");
    assert!(matches!(Statement::from_tokens(&mut t), Err(m) if m == "Error, expected comma"));
    let mut t = tokenize("f(1) = 1");
    assert!(matches!(Statement::from_tokens(&mut t), Err(m) if m == "Expected identifier, got 1"));
    let args = tokenize("(a, (b))").pop().unwrap();
    match args {
        Token::ParenthesesGroup(v) => {
            assert!(matches!(Statement::parse_argument_decl(v), Err(m) if m == "Expected identifier, got [b]"));
        },
        _ => panic!("expected a group"),
    }
}

#[test]
fn next_is_expr() {
    let t = tokenize("x");
    assert!(t.next_is_expr());
    let t = tokenize("{");
    assert!(!t.next_is_expr());
    assert!(!Vec::<Token>::new().next_is_expr());
}

#[test]
fn assembler_groups() {
    assert_eq!(group("mov [a],b"), vec!["mov", "", "[", "a", "]", "", ",", "b"]);
    assert_eq!(group("a  b"), vec!["a", " b"]);
}

#[test]
fn assembler_tokens() {
    let t = asm_tokenize("call (f) + 1").unwrap();
    assert_eq!(t.len(), 6);
    match &t[2] {
        AsmToken::Group(TGroupType::Parentheses, inner) => assert_eq!(inner.len(), 1),
        _ => panic!("expected a group"),
    }
    assert!(matches!(asm_tokenize("a )"), Err(m) if m == "Unmatched \")\""));
    assert!(matches!(asm_tokenize("[a )"), Err(m) if m == "Expected matching group operator for )"));
    assert!(assemble("[x]").is_ok());
    assert!(assemble("x]").is_err());
}

#[test]
fn grouping_keeps_the_code() {
    let pieces = group("f(x,-y)+[z]");
    assert_eq!(pieces.concat(), "f(x,-y)+[z]");
    for p in &pieces {
        if p.chars().any(|c| "[]()+-,".contains(c)) {
            assert_eq!(p.chars().count(), 1);
        }
    }
}

#[test]
fn checked_statements() {
    let mut t = tokenize("f(x) = x * 2\n3");
    let block = Statement::from_tokens_checked(&mut t).unwrap().unwrap();
    assert_eq!(block.len(), 2);
    let mut stuck = tokenize("1\n{ 2 }");
    assert!(Statement::from_tokens_checked(&mut stuck).is_none());
    let mut bad = tokenize("if x 1");
    assert!(matches!(Statement::from_tokens_checked(&mut bad), Some(Err(_))));
}
