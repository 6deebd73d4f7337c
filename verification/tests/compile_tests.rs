use lambda_lang::lambda::jit::compile_expr;
use lambda_lang::lambda_jit::decimal::Dec;
use lambda_lang::lambda_jit::il_env::{Env, RunState};
use lambda_lang::lambda_jit::lambda_il::{Bytecode, Value};
use lambda_lang::lambda_parser::expression::ExprNode;
use lambda_lang::lambda_parser::tokenization::tokenize;

fn parse(src: &str) -> ExprNode {
    let mut tks = tokenize(src);
    ExprNode::from_tokens(&mut tks).unwrap()
}

fn run(env: &mut Env, code: &Bytecode) -> Value {
    env.begin(code);
    assert_eq!(env.run(100_000), RunState::Finished);
    env.result().unwrap()
}

fn num(m: i128, s: u32) -> Value {
    Value::Num(Dec { mantissa: m, scale: s })
}

#[test]
fn compiles_arithmetic() {
    let mut env = Env::new();
    let code = compile_expr(&parse("1 + 2 * 3"), &mut env, false).unwrap();
    assert_eq!(run(&mut env, &code), num(7, 0));
    let code = compile_expr(&parse("2.5 - 0.5"), &mut env, false).unwrap();
    assert_eq!(run(&mut env, &code).text(), "2.0");
}

#[test]
fn compiles_comparisons_and_if() {
    let mut env = Env::new();
    let code = compile_expr(&parse("3 < 4"), &mut env, false).unwrap();
    assert_eq!(run(&mut env, &code), num(1, 0));
    let choose = |c: ExprNode| ExprNode::CallOperation {
        caller: "if".to_string(),
        args: vec![c, ExprNode::IntNum(10), ExprNode::IntNum(20)],
    };
    let code = compile_expr(&choose(parse("1 - 1")), &mut env, false).unwrap();
    assert_eq!(run(&mut env, &code), num(20, 0));
    let code = compile_expr(&choose(parse("2")), &mut env, false).unwrap();
    assert_eq!(run(&mut env, &code), num(10, 0));
}

#[test]
fn compiles_assignment_and_names() {
    let mut env = Env::new();
    let code = compile_expr(&parse("x = 5"), &mut env, false).unwrap();
    run(&mut env, &code);
    let code = compile_expr(&parse("x * 2"), &mut env, false).unwrap();
    assert_eq!(run(&mut env, &code), num(10, 0));
}

#[test]
fn compile_errors() {
    let mut env = Env::new();
    let bad = ExprNode::CallOperation { caller: "if".to_string(), args: vec![ExprNode::IntNum(1), ExprNode::IntNum(2)] };
    assert_eq!(compile_expr(&bad, &mut env, false).err(), Some("Expected if statement to have 3 parameters!".to_string()));
    let e = ExprNode::UnaryOperation { op: "!", operand: Box::new(ExprNode::Ident("a".to_string())) };
    assert_eq!(compile_expr(&e, &mut env, false).err(), Some("Unknown unary operator: !".to_string()));
}

#[test]
fn defines_functions() {
    let mut env = Env::new();
    let body = ExprNode::BinaryOperation { op: "*", operands: Box::new((ExprNode::Argument(0), ExprNode::IntNum(2))) };
    let decl = ExprNode::FunctionDecl { ident: "double".to_string(), expr: Box::new(body) };
    let code = compile_expr(&decl, &mut env, false).unwrap();
    assert!(code.code.is_empty());
    assert!(env.dynamic_functions.get_ref("double").is_some());
}
