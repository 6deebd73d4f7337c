use lambda_lang::lambda_parser::tokenization::{get_keyword, get_number, get_identifier, tokenize, Keyword, Token};

#[test]
fn keyword_longest_first() {
    assert_eq!(get_keyword("else x"), Some((4, Keyword::Else)));
    assert_eq!(get_keyword("if"), Some((2, Keyword::If)));
    assert_eq!(get_keyword("x"), None);
}

#[test]
fn number_with_point_and_percent() {
    let (len, n) = get_number("12.5%x").unwrap();
    assert_eq!(len, 5);
    assert_eq!(n.literal, "12.5");
    assert_eq!(n.flags, 1);
    assert_eq!(n.to_string(), "12.5%");
    let (len, n) = get_number("42 ").unwrap();
    assert_eq!(len, 2);
    assert_eq!(n.flags, 2);
    assert!(get_number("abc").is_none());
}

#[test]
fn identifier_reads_letters() {
    assert_eq!(get_identifier("abc1"), Some((3, "abc".to_string())));
    assert_eq!(get_identifier("1abc"), None);
    assert_eq!(get_identifier("\u{e9}t\u{e9}!"), Some((5, "\u{e9}t\u{e9}".to_string())));
}

#[test]
fn tokenize_groups() {
    let t = tokenize("f(x, 2)");
    assert_eq!(t.len(), 2);
    match &t[0] {
        Token::Ident(s) => assert_eq!(s, "f"),
        _ => panic!("expected an identifier"),
    }
    match &t[1] {
        Token::ParenthesesGroup(g) => assert_eq!(g.len(), 3),
        _ => panic!("expected a group"),
    }
}
