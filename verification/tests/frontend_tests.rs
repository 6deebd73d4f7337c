use lambda_lang::ast::items::function::FunctionSyntax;
use lambda_lang::ast::items::modify::{ModifySyntax, SelfMode};
use lambda_lang::ast::items::structure::{Item, StructureSyntax};
use lambda_lang::common::utils::modulepath::ModulePath;
use lambda_lang::compiler::modules::LModule;
use lambda_lang::ast::statements::expressions::{BlockSyntax, Expr, ExprSyntax, LiteralValue, Statement, VarDeclSyntax};
use lambda_lang::ast::token::{ExpressionToken, FeatureToken, StatementToken, Token, TokenType};
use lambda_lang::ast::ty::{Type, TypeSyntax};
use lambda_lang::ast::GenericSyntax;
use lambda_lang::common::operator::{BindingPower, Operator};
use lambda_lang::common::source_owner::{SourceDescriptor, SourceOwner};
use lambda_lang::common::sourcemap::SourceMap;
use lambda_lang::common::utils::outcome::Outcome;
use lambda_lang::compiler::compile_message::CompileMessage;
use lambda_lang::consteval::eval_array_len_expr_uint;

fn span(offset: usize, len: usize) -> SourceMap {
    SourceMap { owner: SourceOwner::new(SourceDescriptor::File, "a.lm".to_string()), offset, line: 1, char: 0, len }
}

/// Tokens from a compact description: names, numbers, operators and
/// punctuation separated by spaces; each token spans one column.
fn lex(src: &str) -> Vec<Token> {
    let mut out = Vec::new();
    for (i, w) in src.split(' ').filter(|w| !w.is_empty()).enumerate() {
        let e = match w {
            "(" => TokenType::Expression(ExpressionToken::OpenParentheses),
            ")" => TokenType::Expression(ExpressionToken::CloseParentheses),
            "[" => TokenType::Expression(ExpressionToken::OpenBracket),
            "]" => TokenType::Expression(ExpressionToken::CloseBracket),
            "." => TokenType::Expression(ExpressionToken::Dot),
            "," => TokenType::Feature(FeatureToken::Comma),
            ";" => TokenType::Feature(FeatureToken::StatementEnd),
            "as" => TokenType::Expression(ExpressionToken::AsKW),
            "nullptr" => TokenType::Expression(ExpressionToken::NullPtr),
            "+" => op("+", BindingPower::Binary(16, 15)),
            "-" => op("-", BindingPower::BinaryOrUnary(16, 15)),
            "*" => op("*", BindingPower::BinaryOrUnary(18, 17)),
            "/" => op("/", BindingPower::Binary(18, 17)),
            "&" => op("&", BindingPower::BinaryOrUnary(12, 11)),
            "<" => op("<", BindingPower::Binary(6, 7)),
            ">" => op(">", BindingPower::Binary(6, 7)),
            "!" => op("!", BindingPower::Unary),
            _ => match w.parse::<u128>() {
                Ok(n) => TokenType::Expression(ExpressionToken::IntegerLiteral(n)),
                Err(_) => TokenType::Expression(ExpressionToken::Identifier(w.to_string())),
            },
        };
        out.push(Token { typ: e, smap: span(i, 1) });
    }
    out
}

fn op(tk: &'static str, bp: BindingPower) -> TokenType {
    TokenType::Expression(ExpressionToken::Operator(Operator { bp, tk }))
}

fn show(e: &Expr) -> String {
    match e {
        Expr::Identifier(s) => s.clone(),
        Expr::Literal(LiteralValue::Integer(i)) => i.to_string(),
        Expr::Literal(_) => "lit".to_string(),
        Expr::NullPtr => "nullptr".to_string(),
        Expr::Lambda(_) => "lambda".to_string(),
        Expr::Tuple(v) => format!("({})", v.iter().map(|x| show(&x.data)).collect::<Vec<_>>().join(", ")),
        Expr::Array(v) => format!("[{}]", v.iter().map(|x| show(&x.data)).collect::<Vec<_>>().join(", ")),
        Expr::Index(i) => format!("{}[{}]", show(&i.operand.data), show(&i.index.data)),
        Expr::BinaryOp(b) => format!("({} {} {})", show(&b.lhs.data), b.op.tk, show(&b.rhs.data)),
        Expr::UnaryOp(u) => format!("{}({})", u.op.tk, show(&u.operand.data)),
        Expr::CallOp(c) => format!("{}({})", show(&c.caller.data), c.arguments.iter().map(|x| show(&x.data)).collect::<Vec<_>>().join(", ")),
        Expr::CastOp(c) => format!("({} as {})", show(&c.expr.data), c.ty.describe()),
        Expr::MemberAccess(m) => format!("{}.{}", show(&m.object.data), m.member),
        Expr::GenericCall(g) => format!(
            "{}.<{}>{}({})",
            show(&g.callee.data),
            g.type_args.iter().map(|t| t.describe()).collect::<Vec<_>>().join(", "),
            match &g.member {
                Some(m) => format!(".{}", m),
                None => String::new(),
            },
            g.arguments.iter().map(|x| show(&x.data)).collect::<Vec<_>>().join(", ")
        ),
    }
}

fn parse_expr(src: &str) -> (Outcome<ExprSyntax, CompileMessage>, Vec<Token>, Vec<CompileMessage>) {
    let mut tokens = lex(src);
    let mut msgs = Vec::new();
    let r = ExprSyntax::make_expression(&mut tokens, 0, &mut msgs);
    (r, tokens, msgs)
}

fn expr_text(src: &str) -> String {
    match parse_expr(src).0 {
        Outcome::Value(e) => show(&e.data),
        Outcome::Nothing => "nothing".to_string(),
        Outcome::Error(m) => format!("error: {}", m.message),
    }
}

#[test]
fn precedence_of_binary_operators() {
    assert_eq!(expr_text("a + b * c"), "(a + (b * c))");
    assert_eq!(expr_text("a * b + c"), "((a * b) + c)");
    assert_eq!(expr_text("a - b - c"), "(a - (b - c))");
    assert_eq!(expr_text("( a + b ) * c"), "((a + b) * c)");
}

#[test]
fn side_by_side_operands_multiply() {
    assert_eq!(expr_text("2 x"), "(2 * x)");
    assert_eq!(expr_text("2 x + 1"), "((2 * x) + 1)");
}

#[test]
fn unary_calls_members_and_indexes() {
    assert_eq!(expr_text("- a * b"), "(-(a) * b)");
    assert_eq!(expr_text("f ( a , b )"), "f(a, b)");
    assert_eq!(expr_text("a [ 1 ]"), "a[1]");
    assert_eq!(expr_text("a . b . c"), "a.b.c");
    assert_eq!(expr_text("a as i32 *"), "(a as i32*)");
    assert_eq!(expr_text("[ 1 , 2 ]"), "[1, 2]");
    assert_eq!(expr_text("( 1 , 2 )"), "(1, 2)");
    assert_eq!(expr_text("v . < i32 > . make ( 1 )"), "v.<i32>.make(1)");
}

#[test]
fn front_end_expression_errors() {
    assert_eq!(expr_text("! "), "error: Expected expression after operator '!'");
    assert_eq!(expr_text("/ a"), "error: operator '/' can not be used in a unary operation");
    assert_eq!(expr_text("a ! b"), "error: operator ! cannot be used in binary operation");
    assert_eq!(expr_text("a [ 1 , 2 ]"), "error: Expected exactly 1 item in indexing operator!");
    assert_eq!(expr_text("a ."), "error: expected member name after '.'");
    assert_eq!(expr_text("f ( a b"), "error: Expected ')' to end this expression");
    assert_eq!(expr_text(", a"), "nothing");
}

#[test]
fn spans_cover_the_expression() {
    let (r, rest, _) = parse_expr("a + b ; c");
    match r {
        Outcome::Value(e) => {
            assert_eq!(e.smap.offset, 0);
            assert_eq!(e.smap.len, 3);
        },
        _ => panic!("no expression"),
    }
    assert_eq!(rest.len(), 2);
}

#[test]
fn parse_reports_errors() {
    let mut tokens = lex("a [ 1 , 2 ]");
    let mut msgs = Vec::new();
    assert!(ExprSyntax::parse(&mut tokens, &mut msgs).is_none());
    assert_eq!(msgs.len(), 1);
}

fn parse_type(src: &str) -> (Option<TypeSyntax>, Vec<CompileMessage>, usize) {
    let mut tokens = lex(src);
    let mut msgs = Vec::new();
    let r = TypeSyntax::parse(&mut tokens, &mut msgs);
    (r, msgs, tokens.len())
}

fn type_text(src: &str) -> String {
    match parse_type(src).0 {
        Some(t) => t.data.describe(),
        None => "none".to_string(),
    }
}

#[test]
fn type_modifiers_apply_left_to_right() {
    assert_eq!(type_text("i32"), "i32");
    assert_eq!(type_text("i32 * &"), "i32*&");
    assert_eq!(type_text("i32 [ ]"), "i32[]");
    assert_eq!(type_text("i32 [ 4 ]"), "i32[4]");
    assert_eq!(type_text("i32 [ 2 * 3 ]"), "i32[6]");
    assert_eq!(type_text("i32 [ 2 ] *"), "i32[2]*");
    assert_eq!(type_text("i32 ( i32 , u8 )"), "i32(i32, u8)");
    assert_eq!(type_text("Vec < i32 , u8 * >"), "Vec<i32, u8*>");
    assert_eq!(type_text("4"), "none");
}

#[test]
fn type_modifier_errors() {
    let (t, msgs, _) = parse_type("i32 [ 4");
    assert_eq!(t.unwrap().data.describe(), "i32[4]");
    assert_eq!(msgs.len(), 1);
    assert_eq!(msgs[0].message, "expected ']' after '['");
    assert_eq!(msgs[0].notes.len(), 1);
    let (t, msgs, _) = parse_type("i32 [ n ]");
    assert_eq!(t.unwrap().data.describe(), "i32");
    assert_eq!(msgs[0].message, "non-const identifier found in constant expression: n");
    let (_, msgs, _) = parse_type("i32 ( u8 ;");
    assert_eq!(msgs[0].message, "expected ')' after '(', got token: ';'");
}

#[test]
fn next_modifier_reads_one() {
    let mut t = GenericSyntax { data: Type::Typename("i32".to_string()), smap: span(0, 1) };
    let mut tokens = lex("* &");
    let mut msgs = Vec::new();
    assert!(t.parse_next_modifier(&mut tokens, &mut msgs));
    assert_eq!(t.data.describe(), "i32*");
    assert_eq!(tokens.len(), 1);
    assert_eq!(t.smap.len, 1);
    let mut other = lex("+");
    assert!(!t.parse_next_modifier(&mut other, &mut msgs));
    assert_eq!(other.len(), 1);
}

fn const_of(src: &str) -> (Option<u128>, Vec<CompileMessage>) {
    let mut tokens = lex(src);
    let mut msgs = Vec::new();
    let e = ExprSyntax::parse(&mut tokens, &mut msgs).unwrap();
    let r = eval_array_len_expr_uint(&e, &mut msgs);
    (r, msgs)
}

#[test]
fn constant_lengths() {
    assert_eq!(const_of("2 + 3 * 4").0, Some(14));
    assert_eq!(const_of("( 10 - 4 ) / 3").0, Some(2));
    assert_eq!(const_of("2 ( 5 )").0, Some(10));
    let (r, m) = const_of("1 - 2");
    assert_eq!(r, None);
    assert_eq!(m[0].message, "arithmetic overflow in constant expression");
    let (r, m) = const_of("1 / 0");
    assert_eq!(r, None);
    assert_eq!(m[0].message, "division by zero in constant expression");
    let (r, m) = const_of("- 1");
    assert_eq!(r, None);
    assert_eq!(m[0].message, "Cannot negate unsigned expression");
    let (_, m) = const_of("a . b");
    assert_eq!(m[0].message, "member access is not allowed in constant expressions");
    let (_, m) = const_of("1 < 2");
    assert_eq!(m[0].message, "Unknown binary operator: <");
}

fn lex_items(src: &str) -> Vec<Token> {
    let mut out = Vec::new();
    for (i, w) in src.split(' ').filter(|w| !w.is_empty()).enumerate() {
        let typ = match w {
            "fn" => TokenType::Statement(StatementToken::FnKW),
            "extern" => TokenType::Statement(StatementToken::ExternKW),
            "public" => TokenType::Statement(StatementToken::PublicKW),
            "lambda" => TokenType::Expression(ExpressionToken::LambdaKW),
            "modify" => TokenType::Statement(StatementToken::ModifyKW),
            "struct" => TokenType::Statement(StatementToken::StructKW),
            "operator" => TokenType::Statement(StatementToken::OperatorKW),
            "{" => TokenType::Feature(FeatureToken::OpenBrace),
            "}" => TokenType::Feature(FeatureToken::CloseBrace),
            ":" => TokenType::Feature(FeatureToken::Colon),
            "=" => op("=", BindingPower::Binary(0, 1)),
            _ => lex(w).remove(0).typ,
        };
        out.push(Token { typ, smap: span(i, 1) });
    }
    out
}

#[test]
fn variable_declarations() {
    let mut tokens = lex_items("public x : i32 * = 4");
    let mut msgs = Vec::new();
    let d = VarDeclSyntax::parse(&mut tokens, &mut msgs).unwrap();
    assert_eq!(d.data.name, "x");
    assert!(d.data.public);
    assert_eq!(d.data.ty.describe(), "i32*");
    assert_eq!(show(&d.data.value.unwrap().data), "4");
    assert_eq!((d.smap.offset, d.smap.len), (0, 7));
    let mut tokens = lex_items("x : 4");
    assert!(VarDeclSyntax::parse(&mut tokens, &mut msgs).is_none());
    assert_eq!(msgs[0].message, "expected type after variable declaration: \"x\"");
    let mut tokens = lex_items("x + 1");
    assert!(VarDeclSyntax::parse(&mut tokens, &mut msgs).is_none());
    assert_eq!(tokens.len(), 3);
}

#[test]
fn blocks_and_statements() {
    let mut tokens = lex_items("{ x : i32 = 1 ; x + 2 ; }");
    let mut msgs = Vec::new();
    let b = BlockSyntax::parse(&mut tokens, &mut msgs).unwrap();
    assert_eq!(b.data.len(), 2);
    match &b.data[0] {
        Statement::VariableDeclaration(v) => assert_eq!(v.name, "x"),
        _ => panic!("expected a declaration"),
    }
    match &b.data[1] {
        Statement::Expression(e) => assert_eq!(show(e), "(x + 2)"),
        _ => panic!("expected an expression"),
    }
    assert!(tokens.is_empty());
    let mut open = lex_items("{ x");
    assert!(BlockSyntax::parse(&mut open, &mut msgs).is_none());
    assert_eq!(msgs.last().unwrap().message, "unclosed '}'");
    let mut none = lex_items("x");
    let before = msgs.len();
    assert!(BlockSyntax::parse(&mut none, &mut msgs).is_none());
    assert_eq!(msgs.len(), before);
}

#[test]
fn lambda_expressions() {
    let mut tokens = lex_items("lambda ( a : i32 , b : i32 ) = i32 { a + b }");
    let mut msgs = Vec::new();
    match ExprSyntax::make_expression(&mut tokens, 0, &mut msgs) {
        Outcome::Value(e) => match e.data {
            Expr::Lambda(l) => {
                assert_eq!(l.parameters.len(), 2);
                assert_eq!(l.ret_ty.unwrap().describe(), "i32");
                assert_eq!(l.body.data.len(), 1);
            },
            _ => panic!("expected a lambda"),
        },
        _ => panic!("no expression"),
    }
    let mut bad = lex_items("lambda x");
    assert!(matches!(ExprSyntax::make_expression(&mut bad, 0, &mut msgs), Outcome::Nothing));
    assert_eq!(msgs.last().unwrap().message, "expected '(' after 'lambda'");
}

#[test]
fn functions_and_extern_functions() {
    let mut tokens = lex_items("extern fn add ( a : i32 , b : i32 ) = i32 { a + b }");
    let mut msgs = Vec::new();
    let f = FunctionSyntax::parse(&mut tokens, &mut msgs).unwrap();
    assert!(f.data.is_extern);
    assert_eq!(f.data.name, "add");
    assert_eq!(f.data.parameters.len(), 2);
    assert_eq!(f.data.ty.unwrap().describe(), "i32");
    assert!(f.data.body.is_some());
    assert!(msgs.is_empty());
    assert_eq!((f.smap.offset, f.smap.len), (0, 18));
    let mut decl = lex_items("fn puts ( s : u8 * )");
    let f = FunctionSyntax::parse(&mut decl, &mut msgs).unwrap();
    assert!(!f.data.is_extern);
    assert!(f.data.body.is_none());
    assert!(f.data.ty.is_none());
    let mut defaulted = lex_items("fn f ( a : i32 = 1 ) { }");
    assert!(FunctionSyntax::parse(&mut defaulted, &mut msgs).is_some());
    assert_eq!(msgs[0].message, "default values for function arguments are not allowed!");
    let mut unnamed = lex_items("fn ( )");
    assert!(FunctionSyntax::parse(&mut unnamed, &mut msgs).is_none());
    assert_eq!(msgs.last().unwrap().message, "expected identifier after 'fn' keyword, got token: '('");
    let mut other = lex_items("x : i32");
    assert!(FunctionSyntax::parse(&mut other, &mut msgs).is_none());
    assert_eq!(other.len(), 3);
}

#[test]
fn modify_blocks() {
    let src = "modify < T > Vec < T > { public fn len ( self & ) = u64 { 0 } ; fn operator add ( self , o : Vec < T > ) = Vec < T > { o } fn make ( ) { } }";
    let mut tokens = lex_items(src);
    let mut msgs = Vec::new();
    let m = ModifySyntax::parse(&mut tokens, &mut msgs).unwrap();
    assert!(tokens.is_empty());
    assert!(msgs.is_empty());
    assert_eq!(m.data.type_parameters, vec!["T".to_string()]);
    assert_eq!(m.data.ty.describe(), "Vec<T>");
    assert_eq!(m.data.methods.len(), 2);
    assert_eq!(m.data.methods[0].name, "len");
    assert!(m.data.methods[0].public);
    assert_eq!(m.data.methods[0].self_mode, SelfMode::ByRef);
    assert_eq!(m.data.methods[0].ret.as_ref().unwrap().describe(), "u64");
    assert_eq!(m.data.methods[1].name, "make");
    assert_eq!(m.data.methods[1].self_mode, SelfMode::NoSelf);
    assert_eq!(m.data.operators.len(), 1);
    assert_eq!(m.data.operators[0].op_name, "add");
    assert_eq!(m.data.operators[0].self_mode, SelfMode::Value);
    assert_eq!(m.data.operators[0].params.len(), 1);
}

#[test]
fn modify_block_errors() {
    let mut msgs = Vec::new();
    let mut no_fn = lex_items("modify i32 { len ( ) }");
    assert!(ModifySyntax::parse(&mut no_fn, &mut msgs).is_none());
    assert_eq!(msgs[0].message, "expected fn keyword in modify block declaration, got token: identifier len");
    let mut open = lex_items("modify i32 { fn f ( ) { }");
    let m = ModifySyntax::parse(&mut open, &mut msgs).unwrap();
    assert_eq!(m.data.methods.len(), 1);
    assert_eq!(msgs.last().unwrap().message, "expected '}' to close modify block");
    let mut public_op = lex_items("modify i32 { public fn operator neg ( self ) { } }");
    assert!(ModifySyntax::parse(&mut public_op, &mut msgs).is_some());
    assert_eq!(msgs.last().unwrap().message, "operators are always public; 'public' keyword is redundant here");
    let mut defaulted = lex_items("modify i32 { fn f ( a : i32 = 1 ) { } }");
    assert!(ModifySyntax::parse(&mut defaulted, &mut msgs).is_some());
    assert_eq!(msgs.last().unwrap().message, "default parameter values are not allowed in methods");
    let mut no_brace = lex_items("modify i32 fn");
    assert!(ModifySyntax::parse(&mut no_brace, &mut msgs).is_none());
    assert_eq!(msgs.last().unwrap().message, "expected { after modify i32, got token: keyword");
    let mut other = lex_items("fn f");
    assert!(ModifySyntax::parse(&mut other, &mut msgs).is_none());
    assert_eq!(other.len(), 2);
}

#[test]
fn structures() {
    let mut tokens = lex_items("struct < T > Pair { a : T , public b : i32 , , }");
    let mut msgs = Vec::new();
    let st = StructureSyntax::parse(&mut tokens, &mut msgs).unwrap();
    assert!(msgs.is_empty());
    assert_eq!(st.data.name, "Pair");
    assert_eq!(st.data.type_parameters, vec!["T".to_string()]);
    assert_eq!(st.data.members.len(), 2);
    assert!(st.data.members[1].public);
    assert_eq!(st.data.members[1].ty.describe(), "i32");
    assert!(tokens.is_empty());
    let mut missing = lex_items("struct P { a : i32 ; }");
    let st = StructureSyntax::parse(&mut missing, &mut msgs).unwrap();
    assert_eq!(st.data.members.len(), 1);
    assert_eq!(msgs[0].message, "expected , after struct member declaration a: i32, got token: ';'");
    let mut unnamed = lex_items("struct { }");
    assert!(StructureSyntax::parse(&mut unnamed, &mut msgs).is_none());
    assert_eq!(msgs.last().unwrap().message, "expected identifier after 'struct' keyword, got token: '{'");
}

#[test]
fn module_items() {
    let tokens = lex_items("fn main ( ) { } ; struct S { x : i32 , } 4 fn g ( )");
    let mut msgs = Vec::new();
    let m = LModule::parse_untyped(ModulePath::from_module_path("main"), tokens, span(0, 0), Vec::new(), &mut msgs);
    assert_eq!(m.ast.len(), 3);
    assert!(matches!(m.ast[0], Item::Func(_)));
    assert!(matches!(m.ast[1], Item::Struct(_)));
    assert!(matches!(m.ast[2], Item::Func(_)));
    assert_eq!(msgs.len(), 1);
    assert_eq!(msgs[0].message, "Unexpected token integer literal");
}
