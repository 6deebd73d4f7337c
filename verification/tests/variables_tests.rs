use lambda_lang::common::utils::labels::LabelTable;
use lambda_lang::lambda_parser::variables::Env;

#[test]
fn scopes_shadow_and_restore() {
    let mut env: Env<i32> = Env { scopes: Vec::new() };
    env.insert("x", 1);
    assert_eq!(env.get("x"), None);
    env.push_scope(LabelTable::new());
    env.insert("x", 1);
    env.push_scope(LabelTable::new());
    assert_eq!(env.get("x"), Some(&1));
    env.insert("x", 2);
    assert_eq!(env.get("x"), Some(&2));
    let inner = env.pop_scope().unwrap();
    assert_eq!(inner.get("x"), Some(2));
    assert_eq!(env.get("x"), Some(&1));
}

#[test]
fn set_changes_the_innermost_binding() {
    let mut env: Env<i32> = Env { scopes: Vec::new() };
    env.push_scope(LabelTable::new());
    env.insert("x", 1);
    env.push_scope(LabelTable::new());
    env.set("x", 5);
    env.set("y", 7);
    assert_eq!(env.get("x"), Some(&5));
    let inner = env.pop_scope().unwrap();
    assert_eq!(inner.get("x"), None);
    assert_eq!(inner.get("y"), Some(7));
    assert_eq!(env.get("x"), Some(&5));
}

#[test]
fn undeclare_removes_the_innermost() {
    let mut env: Env<i32> = Env { scopes: Vec::new() };
    env.push_scope(LabelTable::new());
    env.insert("x", 1);
    env.push_scope(LabelTable::new());
    env.insert("x", 2);
    assert!(env.undeclare("x"));
    assert_eq!(env.get("x"), Some(&1));
    assert!(env.undeclare("x"));
    assert!(!env.undeclare("x"));
    assert_eq!(env.get("x"), None);
}
