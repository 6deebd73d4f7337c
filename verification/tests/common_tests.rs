use lambda_lang::common::operator::{BindingPower, Operator};
use lambda_lang::common::primitives::decimal128::LDecimal128;
use lambda_lang::common::primitives::decimal64::LDecimal64;
use lambda_lang::common::source_owner::{SourceDescriptor, SourceOwner};
use lambda_lang::common::sourcemap::SourceMap;
use lambda_lang::common::type_context::{TypeContext, TypeName};
use lambda_lang::common::utils::hashtable::ArrayHashTable;
use lambda_lang::common::utils::modulepath::ModulePath;
use lambda_lang::common::utils::outcome::Outcome;
use lambda_lang::common::utils::progress::Progress;
use lambda_lang::common::utils::try_error::TryError;
use std::ops::ControlFlow;

fn span(offset: usize, len: usize) -> SourceMap {
    SourceMap { owner: SourceOwner::new(SourceDescriptor::File, "a.lm".to_string()), offset, line: 1, char: 2, len }
}

#[test]
fn module_path_components_and_file() {
    let m = ModulePath::from_module_path("std::io::file");
    assert_eq!(m.components(), vec!["std".to_string(), "io".to_string(), "file".to_string()]);
    assert_eq!(m.to_path(), "std/io/file.lm");
    let odd = ModulePath::from_module_path("a:::b");
    assert_eq!(odd.components(), vec!["a".to_string(), ":b".to_string()]);
}

#[test]
fn module_path_namespace_and_from_path() {
    let mut m = ModulePath::from_module_path("file");
    m.add_namespace(&ModulePath::from_module_path("std::io"));
    assert_eq!(m.path, "std::io::file");
    let p = ModulePath::from_path(&vec!["std".to_string(), "io.lm".to_string()]);
    assert_eq!(p.path, "std::io");
}

#[test]
fn source_map_extend_covers_both() {
    let mut a = span(10, 5);
    a.extend(&span(3, 4));
    assert_eq!((a.offset, a.len), (3, 12));
    let mut b = span(10, 0);
    b.extend(&span(20, 2));
    assert_eq!((b.offset, b.len), (20, 2));
    let mut c = span(10, 5);
    c.extend(&span(0, 0));
    assert_eq!((c.offset, c.len), (10, 5));
    assert_eq!(span(10, 5).end(), 15);
    let e = span(10, 5).end_source();
    assert_eq!((e.offset, e.char, e.len), (15, 12, 0));
    let d = SourceMap::default();
    assert_eq!(d.owner.name, "default");
    assert_eq!(SourceDescriptor::File.describe(), "file");
}

#[test]
fn type_context_finds_types() {
    let mut c = TypeContext::new();
    let a = c.add_type(TypeName { modulepath: ModulePath::from_module_path("a"), size: Some(4) });
    let b = c.add_type(TypeName { modulepath: ModulePath::from_module_path("b"), size: None });
    let a2 = c.add_type(TypeName { modulepath: ModulePath::from_module_path("a"), size: Some(8) });
    assert_eq!((a, b, a2), (0, 1, 2));
    assert_eq!(c.get_type_by_id(1).unwrap().modulepath.path, "b");
    assert!(c.get_type_by_id(3).is_none());
    assert_eq!(c.get_type_by_name(&ModulePath::from_module_path("a")).unwrap().size, Some(8));
    assert!(c.get_type_by_name(&ModulePath::from_module_path("z")).is_none());
}

#[test]
fn hash_table_maps_keys() {
    let mut t: ArrayHashTable<u32, 7> = ArrayHashTable::new();
    t.insert("x".to_string(), 1);
    t.insert("y".to_string(), 2);
    t.insert("x".to_string(), 3);
    assert_eq!(t.get("x"), Some(&3));
    assert_eq!(t.get("y"), Some(&2));
    assert_eq!(t.get("z"), None);
    assert!(t.contains("y"));
    assert!(!t.contains("w"));
    *t.get_mut("y").unwrap() += 10;
    assert_eq!(t.get("y"), Some(&12));
    assert!(t.get_mut("w").is_none());
}

#[test]
fn outcome_and_try_error() {
    let o: Outcome<i32, String> = Outcome::Value(3);
    assert_eq!(o.ok_or("e".to_string()), Ok(3));
    let n: Outcome<i32, String> = Outcome::Nothing;
    assert_eq!(n.ok_or("e".to_string()), Err("e".to_string()));
    let e: Outcome<i32, String> = Outcome::Error("bad".to_string());
    assert!(matches!(e.branch(), ControlFlow::Break(ref s) if s == "bad"));
    let t: TryError<i32, String> = TryError::Nothing;
    assert!(matches!(t.branch(), ControlFlow::Continue(None)));
    assert_eq!(TryError::<i32, String>::Value(4).unwrap_some(), 4);
    let back: Outcome<i32, String> = Outcome::from_output(Some(5));
    assert_eq!(back.unwrap_some(), 5);
}

#[test]
fn progress_stages() {
    let p: Progress<u8, u16, u32> = Progress::Partial(2);
    assert!(p.is_partially_finished());
    assert!(!p.is_finished());
    assert!(p.is_unfinished());
    assert_eq!(*p.unwrap_partially_finished_ref(), 2);
    let f: Progress<u8, u16, u32> = Progress::Finished(9);
    assert!(f.is_unfinished());
    assert_eq!(f.unwrap_finished(), 9);
}

#[test]
fn decimal_text() {
    assert_eq!(LDecimal64::new(0, 3).to_string(), "0");
    assert_eq!(LDecimal64::new(5, 3).to_string(), "5000");
    assert_eq!(LDecimal64::new(12345, 2).to_string(), "1234500");
    assert_eq!(LDecimal64::new(-105, -2).to_string(), "-1.05");
    assert_eq!(LDecimal64::new(105, -2).to_string(), "1.05");
    assert_eq!(LDecimal64::new(5, 2).to_string(), "500");
    assert_eq!(LDecimal64::new(-7, -1).to_string(), "-0.7");
    assert_eq!(LDecimal64::new(7, -20).to_string(), "0.00000000000000000007");
    assert_eq!(LDecimal128::new(31415, -4).to_string(), "3.1415");
    assert_eq!(LDecimal128::new(1, -40).mantissa(), 1);
    assert_eq!(LDecimal128::new(1, -40).exponent(), -40);
}

#[test]
fn binding_powers() {
    let bp = BindingPower::Binary(6, 7);
    assert_eq!(bp.effective_lbp(), 6);
    assert_eq!(bp.effective_rbp(), 7);
    assert!(bp.is_binary());
    assert!(!bp.is_unary());
    assert_eq!(BindingPower::Unary.effective_rbp(), 255);
    assert_eq!(BindingPower::PostFix.effective_lbp(), 100);
    assert_eq!(Operator::additive_bp().to_binary_or_unary(), BindingPower::BinaryOrUnary(16, 15));
    assert_eq!(BindingPower::Unary.effective_unary_rbp(), 255);
}

#[test]
fn hash_table_indexing() {
    let mut t: ArrayHashTable<u32, 3> = ArrayHashTable::new();
    t.insert("a".to_string(), 5);
    t.insert("b".to_string(), 6);
    assert_eq!(*t.index("a"), 5);
    *t.index_mut("b") = 60;
    assert_eq!(*t.index("b"), 60);
    assert_eq!(*t.index("a"), 5);
}
