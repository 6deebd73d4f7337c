use lambda_lang::build_args::{BuildJSON, CompilerArgs};
use lambda_lang::common::source_owner::{SourceDescriptor, SourceOwner};
use lambda_lang::common::sourcemap::SourceMap as Span;
use lambda_lang::compiler::compile_message::CompileMessage;
use lambda_lang::compiler::{CompileMessageType, Registry};
use lambda_lang::context::{CompileMessageKind, Context};
use lambda_lang::lang::keyword::Keyword;
use lambda_lang::lang::literal::IntLiteral;
use lambda_lang::lang::operator::BindingPower;
use lambda_lang::lang::source_map::{Source, SourceMap};
use lambda_lang::ast::items::modify::SelfMode;
use lambda_lang::ast::ty::Type;
use lambda_lang::ast::GenericSyntax;

fn span() -> Span {
    Span { owner: SourceOwner::new(SourceDescriptor::RustString, "t".to_string()), offset: 0, line: 0, char: 0, len: 1 }
}

#[test]
fn int_literal_readings() {
    let neg_min = IntLiteral { negative: true, val: 9223372036854775808 };
    assert_eq!(neg_min.as_signed(), Some(i64::MIN));
    assert_eq!(IntLiteral { negative: true, val: 9223372036854775809 }.as_signed(), None);
    assert_eq!(IntLiteral { negative: false, val: 9223372036854775808 }.as_signed(), None);
    assert_eq!(IntLiteral { negative: true, val: 5 }.as_signed(), Some(-5));
    assert_eq!(IntLiteral { negative: true, val: u64::MAX }.as_signed_lossy(), i64::MIN);
    assert_eq!(IntLiteral { negative: false, val: u64::MAX }.as_signed_lossy(), i64::MAX);
    assert_eq!(IntLiteral { negative: true, val: 1 }.as_unsigned(), u64::MAX);
    assert_eq!(IntLiteral { negative: true, val: 0 }.as_unsigned(), 0);
    assert_eq!(IntLiteral { negative: false, val: 42 }.as_unsigned(), 42);
}

#[test]
fn keyword_lengths() {
    assert_eq!(Keyword::Let.len(), 3);
    assert_eq!(Keyword::Fn.len(), 2);
    assert_eq!(Keyword::Return.len(), 6);
}

#[test]
fn lang_binding_power() {
    assert_eq!(BindingPower::binary((5, 6)).is_binary(), Some((5, 6)));
    assert!(BindingPower::binary_or_unary((7, 8)).is_unary());
    assert_eq!(BindingPower::Unknown.is_binary(), None);
}

#[test]
fn lang_source_map_extend() {
    let mut a = SourceMap { source: 1, line: 0, char: 0, offset: 5, len: 3 };
    assert!(a.extend(&SourceMap { source: 1, line: 0, char: 0, offset: 6, len: 10 }));
    assert_eq!(a.len, 11);
    assert!(!a.extend(&SourceMap { source: 2, line: 0, char: 0, offset: 6, len: 20 }));
    assert!(!a.extend(&SourceMap { source: 1, line: 0, char: 0, offset: 4, len: 20 }));
    assert!(!a.extend(&SourceMap { source: 1, line: 0, char: 0, offset: 5, len: 20 }));
    assert_eq!(a.len, 11);
}

#[test]
fn sources_and_registry() {
    let s = Source::new("main.lm".to_string(), "x = 1".to_string());
    assert_eq!(s.get_label(), Some("main.lm"));
    assert_eq!(s.get_source(), "x = 1");
    let u = Source::from("y".to_string());
    assert_eq!(u.get_label(), None);
    let mut r: Registry<String> = Registry::new();
    assert_eq!(r.add("a".to_string()), 0);
    assert_eq!(r.add("b".to_string()), 1);
    assert_eq!(r.add("a".to_string()), 0);
    assert_eq!(r.items.len(), 2);
    let mut rs: Registry<Source> = Registry::new();
    assert_eq!(rs.add(Source::new("l".to_string(), "t".to_string())), 0);
    assert_eq!(rs.add(Source::from("t".to_string())), 1);
    assert_eq!(rs.add(Source::new("l".to_string(), "t".to_string())), 0);
}

#[test]
fn compile_messages() {
    let m = CompileMessage::expected_token_error(span(), "identifier", "'let'", Some("Number"));
    assert_eq!(m.message, "expected identifier after 'let', got token: Number");
    assert_eq!(m.ty, CompileMessageType::Error);
    let m2 = CompileMessage::expected_token_in_error(span(), "type", "declaration", None);
    assert_eq!(m2.message, "expected type in declaration");
    let n = CompileMessage::note(span(), "see here".to_string());
    assert_eq!(n.ty, CompileMessageType::Info);
    let m3 = CompileMessage::new(span(), "bad".to_string(), CompileMessageType::Warning).add_note(n);
    assert_eq!(m3.notes.len(), 1);
}

#[test]
fn context_gathers_messages() {
    let mut c = Context::new(3u8);
    let sm = SourceMap { source: 0, line: 1, char: 1, offset: 0, len: 1 };
    c.emit_warning(sm, Some("w".to_string()));
    c.emit_token_error(sm, None);
    assert_eq!(c.errors().len(), 2);
    assert_eq!(c.errors()[0].kind, CompileMessageKind::Warning);
    assert_eq!(c.errors()[1].kind, CompileMessageKind::TokenError);
    assert_eq!(c.errors()[1].message, None);
}

#[test]
fn types_mangle_and_size() {
    let t = Type::Generic {
        name: "Vec".to_string(),
        params: vec![Type::Pointer(Box::new(Type::Typename("i32".to_string()))), Type::Array { ty: Box::new(Type::Typename("u8".to_string())), size: 16 }],
    };
    assert_eq!(t.mangle_name(), "Vec_i32_ptr_u8_array_16");
    let f = Type::FnPtr { ret: Box::new(Type::Slice(Box::new(Type::Typename("c".to_string())))), params: vec![] };
    assert_eq!(f.mangle_name(), "fn_c_slice");
    assert_eq!(f.try_get_size(), Some(8));
    assert_eq!(Type::Slice(Box::new(Type::Typename("c".to_string()))).try_get_size(), Some(16));
    assert_eq!(Type::Typename("c".to_string()).try_get_size(), None);
    assert!(SelfMode::ByRef.has_self());
    assert!(!SelfMode::NoSelf.has_self());
    let g = GenericSyntax::new(5u8, span());
    assert_eq!(g.data, 5);
}

#[test]
fn build_file_defaults() {
    let b = BuildJSON::from_fields(None, None, None, Some(true), None, None, Some(vec![Some("m".to_string()), None, Some("pthread".to_string())]), None, None, Some(vec![Some("main.lm".to_string())]));
    assert_eq!(b.get_output(), "a.out");
    assert_eq!(b.get_optimize(), "2");
    assert!(!b.get_debug_ast());
    assert!(b.get_no_codegen());
    assert_eq!(b.get_output_ir(), None);
    assert_eq!(b.get_libs(), &vec!["m".to_string(), "pthread".to_string()]);
    assert!(b.get_lib_paths().is_empty());
    assert_eq!(b.get_files(), &vec!["main.lm".to_string()]);
}

#[test]
fn span_is_described() {
    let s = SourceMap { source: 1, line: 3, char: 4, offset: 0, len: 5 };
    assert_eq!(s.describe(), "line 3, char 4, len 5");
}

#[test]
fn build_file_text_is_read() {
    let text = r#"{"output": "main", "output_ir": "main.ll", "libs": ["raylib", 1, "GL"], "shared": true, "files": ["main.lm"]}"#;
    let b = BuildJSON::from_json_text(text).unwrap();
    assert_eq!(b.get_output(), "main");
    assert_eq!(b.get_optimize(), "2");
    assert_eq!(b.get_output_ir().map(|s| s.as_str()), Some("main.ll"));
    assert!(b.get_shared());
    assert!(!b.get_debug_ast());
    assert_eq!(b.get_libs(), &vec!["raylib".to_string(), "GL".to_string()]);
    assert!(b.get_lib_paths().is_empty());
    assert_eq!(b.get_files(), &vec!["main.lm".to_string()]);
    assert!(BuildJSON::from_json_text("{").is_err());
    let other = BuildJSON::from_json_text("[1, 2]").unwrap();
    assert_eq!(other.get_output(), "a.out");
}
