use vstd::prelude::*;
use crate::common::operator::Operator;
use crate::common::sourcemap::SourceMap;

verus! {

/// A token that can stand in an expression.
#[derive(Debug)]
pub enum ExpressionToken {
    Operator(Operator),
    Identifier(String),
    OpenParentheses,
    CloseParentheses,
    OpenBracket,
    CloseBracket,
    IntegerLiteral(u128),
    /// A floating literal, as written.
    FloatLiteral(String),
    StringLiteral(String),
    CStringLiteral(String),
    CharLiteral(char),
    BoolLiteral(bool),
    Dot,
    NullPtr,
    LambdaKW,
    AsKW,
}

/// A token that shapes the program around expressions.
#[derive(Debug)]
pub enum FeatureToken {
    Comma,
    OpenBrace,
    CloseBrace,
    StatementEnd,
    Colon,
}

/// A keyword that starts a statement or an item.
#[derive(Debug)]
pub enum StatementToken {
    FnKW,
    StructKW,
    ReturnKW,
    PublicKW,
    ModifyKW,
    IfKW,
    ElseKW,
    ExternKW,
    WhileKW,
    UseKW,
    UsecKW,
    OperatorKW,
}

#[derive(Debug)]
pub enum TokenType {
    Expression(ExpressionToken),
    Feature(FeatureToken),
    Statement(StatementToken),
}

/// A token with the span it was read from.
#[derive(Debug)]
pub struct Token {
    pub typ: TokenType,
    pub smap: SourceMap,
}

/// The tokens without the first one.
pub open spec fn tail(ts: Seq<Token>) -> Seq<Token> {
    ts.subrange(1, ts.len() as int)
}

/// The first token, with its span, when it is an expression token.
pub open spec fn peek_expr(ts: Seq<Token>) -> Option<(ExpressionToken, SourceMap)> {
    if ts.len() > 0 && ts[0].typ is Expression {
        Some((ts[0].typ->Expression_0, ts[0].smap))
    } else {
        None
    }
}

/// The first token when it is a feature token.
pub open spec fn peek_feature(ts: Seq<Token>) -> Option<(FeatureToken, SourceMap)> {
    if ts.len() > 0 && ts[0].typ is Feature {
        Some((ts[0].typ->Feature_0, ts[0].smap))
    } else {
        None
    }
}

/// Whether the first token is the operator written `tk`.
pub open spec fn next_is_op(ts: Seq<Token>, tk: Seq<char>) -> bool {
    match peek_expr(ts) {
        Some((ExpressionToken::Operator(op), _)) => op.tk@ == tk,
        _ => false,
    }
}

/// Whether the first token is a comma.
pub open spec fn next_is_comma(ts: Seq<Token>) -> bool {
    peek_feature(ts) matches Some((FeatureToken::Comma, _))
}

/// Takes the first token.
pub fn pop_front(tokens: &mut Vec<Token>) -> (t: Token)
    requires
        old(tokens)@.len() > 0,
    ensures
        t == old(tokens)@[0],
        final(tokens)@ == tail(old(tokens)@),
{
    let t = tokens.remove(0);
    assert(tokens@ =~= tail(old(tokens)@));
    t
}

/// Whether the first token is an expression token.
pub fn front_is_expression(tokens: &Vec<Token>) -> (r: bool)
    ensures
        r == (peek_expr(tokens@) is Some),
{
    tokens.len() > 0 && match &tokens[0].typ {
        TokenType::Expression(_) => true,
        _ => false,
    }
}

/// Takes the first token when it is an expression token.
pub fn next_expression(tokens: &mut Vec<Token>) -> (r: Option<(ExpressionToken, SourceMap)>)
    ensures
        r == peek_expr(old(tokens)@),
        final(tokens)@ == (if r is Some { tail(old(tokens)@) } else { old(tokens)@ }),
{
    if !front_is_expression(tokens) {
        return None;
    }
    let t = pop_front(tokens);
    match t.typ {
        TokenType::Expression(e) => Some((e, t.smap)),
        _ => {
            proof {
                assert(false);
            }
            None
        },
    }
}

/// Whether the first token is the operator written `tk`.
pub fn front_is_op(tokens: &Vec<Token>, tk: &str) -> (r: bool)
    ensures
        r == next_is_op(tokens@, tk@),
{
    if tokens.len() == 0 {
        return false;
    }
    match &tokens[0].typ {
        TokenType::Expression(ExpressionToken::Operator(op)) => crate::common::utils::labels::str_eq(op.tk, tk),
        _ => false,
    }
}

/// Whether the first token is a comma.
pub fn front_is_comma(tokens: &Vec<Token>) -> (r: bool)
    ensures
        r == next_is_comma(tokens@),
{
    tokens.len() > 0 && match &tokens[0].typ {
        TokenType::Feature(FeatureToken::Comma) => true,
        _ => false,
    }
}

} // verus!
