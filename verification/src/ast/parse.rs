use vstd::prelude::*;
use crate::ast::GenericSyntax;
use crate::ast::grammar::{
    Parsed, close_char, expr_parse_spec, expr_rest, expr_spec, first_spec, step_spec, juxtaposed_spec, operator_step_spec, group_step_spec,
    dot_step_spec, cast_step_spec, bracket_mod_spec, fn_mod_spec, vardecl_spec, statement_spec, block_spec,
    block_items, block_parse_spec, lambda_spec, lambda_params, fn_params_spec, mods_spec, modifier_spec, mul_op,
    open_char, parens_items, parens_spec, token_text, type_list_spec, type_spec,
};
use crate::ast::statements::expressions::{
    BlockSyntax, LambdaExpr, Statement, StatementV, VarDecl, VarDeclSyntax, VarDeclV, lemma_statements_view_push,
    lemma_vardecls_view_push, statements_view, statement_view, vardecl_view, vardecls_view, opt_type_view,
    BinaryOperation, CallOperation, CastOperation, Expr, ExprSyntax, GenericCallOperation, IndexOperation,
    LiteralValue, MemberAccessOperation, SynV, UnaryOperation, expr_view, exprs_view, lemma_exprs_view,
    lemma_exprs_view_push, opt_expr_view,
};
use crate::ast::token::{
    ExpressionToken, FeatureToken, StatementToken, Token, TokenType, front_is_comma, front_is_expression, front_is_op,
    next_expression, pop_front,
};
use crate::ast::ty::{Type, TypeSyntax, TypeV, lemma_types_view_push, type_view, types_view};
use crate::common::operator::{BindingPower, Operator};
use crate::common::sourcemap::SourceMap;
use crate::common::utils::labels::str_eq;
use crate::common::utils::outcome::Outcome;
use crate::compiler::compile_message::{CompileMessage, NoteV, emit, error_msg, msg_view, msgs_view, note_view};
use crate::compiler::CompileMessageType;
use crate::consteval::eval_array_len_expr_uint;

verus! {

/// The outcome of reading an expression, as plain values.
pub open spec fn parsed_view(r: Outcome<ExprSyntax, CompileMessage>) -> Parsed<SynV> {
    match r {
        Outcome::Value(e) => Parsed::Value(expr_view(e)),
        Outcome::Nothing => Parsed::Nothing,
        Outcome::Error(m) => Parsed::Error(msg_view(m)),
    }
}

/// The outcome of reading a list of expressions, as plain values.
pub open spec fn list_view(r: Outcome<(Vec<ExprSyntax>, SourceMap), CompileMessage>) -> Parsed<(Seq<SynV>, SourceMap)> {
    match r {
        Outcome::Value((v, s)) => Parsed::Value((exprs_view(v@), s)),
        Outcome::Nothing => Parsed::Nothing,
        Outcome::Error(m) => Parsed::Error(msg_view(m)),
    }
}

/// A type with its span, as plain values.
pub open spec fn tsyn_view(t: TypeSyntax) -> (TypeV, SourceMap) {
    (type_view(t.data), t.smap)
}

pub open spec fn opt_tsyn_view(t: Option<TypeSyntax>) -> Option<(TypeV, SourceMap)> {
    match t {
        Some(x) => Some(tsyn_view(x)),
        None => None,
    }
}

/// An error about `smap` with the text `text`.
pub(crate) fn err_at(smap: SourceMap, text: String) -> (m: CompileMessage)
    ensures
        msg_view(m) == error_msg(smap, text@),
{
    let m = CompileMessage::new(smap, text, CompileMessageType::Error);
    assert(msg_view(m).notes =~= Seq::<NoteV>::empty());
    m
}

fn text3(a: &str, b: &str, c: &str) -> (r: String)
    ensures
        r@ == a@ + b@ + c@,
{
    let mut s = String::from_str(a);
    s.append(b);
    s.append(c);
    s
}

fn mul_operator() -> (r: Operator)
    ensures
        r == mul_op(),
{
    Operator { bp: BindingPower::Binary(18, 17), tk: "*" }
}

fn close_str(bracket: bool) -> (r: &'static str)
    ensures
        r@ == close_char(bracket),
{
    if bracket { "]" } else { ")" }
}

fn open_str(bracket: bool) -> (r: &'static str)
    ensures
        r@ == open_char(bracket),
{
    if bracket { "[" } else { "(" }
}

/// How a token is named in messages (see `token_text`).
pub fn describe_token(t: &TokenType) -> (r: String)
    ensures
        r@ == token_text(*t),
{
    match t {
        TokenType::Expression(e) => match e {
            ExpressionToken::Operator(op) => text3("'", op.tk, "'"),
            ExpressionToken::Identifier(s) => {
                let mut x = String::from_str("identifier ");
                x.append(s.as_str());
                x
            },
            ExpressionToken::OpenParentheses => String::from_str("'('"),
            ExpressionToken::CloseParentheses => String::from_str("')'"),
            ExpressionToken::OpenBracket => String::from_str("'['"),
            ExpressionToken::CloseBracket => String::from_str("']'"),
            ExpressionToken::IntegerLiteral(_) => String::from_str("integer literal"),
            ExpressionToken::FloatLiteral(_) => String::from_str("float literal"),
            ExpressionToken::StringLiteral(_) => String::from_str("string literal"),
            ExpressionToken::CStringLiteral(_) => String::from_str("c string literal"),
            ExpressionToken::CharLiteral(_) => String::from_str("char literal"),
            ExpressionToken::BoolLiteral(_) => String::from_str("bool literal"),
            ExpressionToken::Dot => String::from_str("'.'"),
            ExpressionToken::NullPtr => String::from_str("'nullptr'"),
            ExpressionToken::LambdaKW => String::from_str("'lambda'"),
            ExpressionToken::AsKW => String::from_str("'as'"),
        },
        TokenType::Feature(f) => match f {
            FeatureToken::Comma => String::from_str("','"),
            FeatureToken::OpenBrace => String::from_str("'{'"),
            FeatureToken::CloseBrace => String::from_str("'}'"),
            FeatureToken::StatementEnd => String::from_str("';'"),
            FeatureToken::Colon => String::from_str("':'"),
        },
        TokenType::Statement(_) => String::from_str("keyword"),
    }
}

/// Which kind of expression token comes first, for the reading of what
/// follows an operand: 0 none, 1 a name or number, 2 an operator, 3 `(`,
/// 4 `[`, 5 `.`, 6 `as`, 7 anything else.
fn rest_kind(tokens: &Vec<Token>) -> (k: u8)
    ensures
        k == (match crate::ast::token::peek_expr(tokens@) {
            None => 0u8,
            Some((e, _)) => match e {
                ExpressionToken::Identifier(_) | ExpressionToken::IntegerLiteral(_) | ExpressionToken::FloatLiteral(_) => 1u8,
                ExpressionToken::Operator(_) => 2u8,
                ExpressionToken::OpenParentheses => 3u8,
                ExpressionToken::OpenBracket => 4u8,
                ExpressionToken::Dot => 5u8,
                ExpressionToken::AsKW => 6u8,
                _ => 7u8,
            },
        }),
{
    if tokens.len() == 0 {
        return 0;
    }
    match &tokens[0].typ {
        TokenType::Expression(e) => match e {
            ExpressionToken::Identifier(_) | ExpressionToken::IntegerLiteral(_) | ExpressionToken::FloatLiteral(_) => 1,
            ExpressionToken::Operator(_) => 2,
            ExpressionToken::OpenParentheses => 3,
            ExpressionToken::OpenBracket => 4,
            ExpressionToken::Dot => 5,
            ExpressionToken::AsKW => 6,
            _ => 7,
        },
        _ => 0,
    }
}

/// The operator that comes first, for a first token that is one.
fn front_operator(tokens: &Vec<Token>) -> (op: Operator)
    requires
        crate::ast::token::peek_expr(tokens@) matches Some((ExpressionToken::Operator(_), _)),
    ensures
        crate::ast::token::peek_expr(tokens@) == Some((ExpressionToken::Operator(op), tokens@[0].smap)),
{
    match &tokens[0].typ {
        TokenType::Expression(ExpressionToken::Operator(o)) => *o,
        _ => {
            proof {
                assert(false);
            }
            Operator { bp: BindingPower::Unary, tk: "" }
        },
    }
}

fn front_is(tokens: &Vec<Token>, dot: bool) -> (r: bool)
    ensures
        r == (if dot {
            crate::ast::token::peek_expr(tokens@) matches Some((ExpressionToken::Dot, _))
        } else {
            crate::ast::token::peek_expr(tokens@) matches Some((ExpressionToken::OpenParentheses, _))
        }),
{
    if tokens.len() == 0 {
        return false;
    }
    match &tokens[0].typ {
        TokenType::Expression(ExpressionToken::Dot) => dot,
        TokenType::Expression(ExpressionToken::OpenParentheses) => !dot,
        _ => false,
    }
}

/// Whether the first token opens (or closes, when `close`) the kind of
/// group read.
fn front_groups(tokens: &Vec<Token>, bracket: bool, close: bool) -> (r: bool)
    ensures
        r == (match crate::ast::token::peek_expr(tokens@) {
            Some((e, _)) => if close {
                crate::ast::grammar::is_close(e, bracket)
            } else {
                crate::ast::grammar::is_open(e, bracket)
            },
            None => false,
        }),
{
    if tokens.len() == 0 {
        return false;
    }
    match &tokens[0].typ {
        TokenType::Expression(ExpressionToken::OpenParentheses) => !bracket && !close,
        TokenType::Expression(ExpressionToken::CloseParentheses) => !bracket && close,
        TokenType::Expression(ExpressionToken::OpenBracket) => bracket && !close,
        TokenType::Expression(ExpressionToken::CloseBracket) => bracket && close,
        _ => false,
    }
}

impl GenericSyntax<Expr> {
    /// Reads an expression whose binary operators bind at least `minbp`
    /// from the front of the tokens (see `expr_spec`).
    /// Reads an expression whose binary operators bind at least `minbp`
    /// from the front of the tokens (see `expr_spec`).
    pub fn make_expression(tokens: &mut Vec<Token>, minbp: u8, msgs: &mut Vec<CompileMessage>) -> (r: Outcome<ExprSyntax, CompileMessage>)
        ensures
            (parsed_view(r), final(tokens)@, msgs_view(final(msgs)@)) == expr_spec(old(tokens)@, minbp, msgs_view(old(msgs)@)),
        decreases old(tokens)@.len(), 1nat,
    {
        let len0 = tokens.len();
        let (e, smap) = match next_expression(tokens) {
            None => return Outcome::Nothing,
            Some(p) => p,
        };
        match Self::first_operand(e, smap, tokens, msgs) {
            Outcome::Value(lhs) => {
                if tokens.len() < len0 {
                    Self::expr_rest(lhs, tokens, minbp, msgs)
                } else {
                    Outcome::Value(lhs)
                }
            },
            other => other,
        }
    }

    /// The first operand of an expression that starts with `e` (see
    /// `first_spec`).
    fn first_operand(e: ExpressionToken, smap: SourceMap, tokens: &mut Vec<Token>, msgs: &mut Vec<CompileMessage>) -> (r: Outcome<ExprSyntax, CompileMessage>)
        ensures
            (parsed_view(r), final(tokens)@, msgs_view(final(msgs)@)) == first_spec(e, smap, old(tokens)@, msgs_view(old(msgs)@)),
        decreases old(tokens)@.len(), 4nat,
    {
        match e {
            ExpressionToken::Operator(op) => {
                if !op.bp.is_unary() {
                    Outcome::Error(err_at(smap, text3("operator '", op.tk, "' can not be used in a unary operation")))
                } else {
                    match Self::make_expression(tokens, 255, msgs) {
                        Outcome::Error(m) => Outcome::Error(m),
                        Outcome::Nothing => Outcome::Error(err_at(smap, text3("Expected expression after operator '", op.tk, "'"))),
                        Outcome::Value(rhs) => {
                            let mut s = smap;
                            s.join_with(&rhs.smap);
                            Outcome::Value(GenericSyntax { data: Expr::UnaryOp(Box::new(UnaryOperation { op, operand: rhs })), smap: s })
                        },
                    }
                }
            },
            ExpressionToken::OpenParentheses => {
                match Self::parse_parentheses(tokens, false, msgs) {
                    Outcome::Error(m) => Outcome::Error(m),
                    Outcome::Nothing => Outcome::Error(err_at(smap, String::from_str("Expected ')' to close this '('"))),
                    Outcome::Value((items, emap)) => {
                        proof {
                            lemma_exprs_view(items@);
                        }
                        if items.len() == 1 {
                            let mut items = items;
                            Outcome::Value(items.remove(0))
                        } else {
                            let mut s = smap;
                            s.join_with(&emap);
                            Outcome::Value(GenericSyntax { data: Expr::Tuple(items), smap: s })
                        }
                    },
                }
            },
            ExpressionToken::OpenBracket => {
                match Self::parse_parentheses(tokens, true, msgs) {
                    Outcome::Error(m) => Outcome::Error(m),
                    Outcome::Nothing => Outcome::Error(err_at(smap, String::from_str("Expected ']' to close this '['"))),
                    Outcome::Value((items, emap)) => {
                        let mut s = smap;
                        s.join_with(&emap);
                        Outcome::Value(GenericSyntax { data: Expr::Array(items), smap: s })
                    },
                }
            },
            ExpressionToken::Identifier(i) => Outcome::Value(GenericSyntax { data: Expr::Identifier(i), smap }),
            ExpressionToken::IntegerLiteral(i) => Outcome::Value(GenericSyntax { data: Expr::Literal(LiteralValue::Integer(i)), smap }),
            ExpressionToken::FloatLiteral(f) => Outcome::Value(GenericSyntax { data: Expr::Literal(LiteralValue::Float(f)), smap }),
            ExpressionToken::BoolLiteral(b) => Outcome::Value(GenericSyntax { data: Expr::Literal(LiteralValue::Bool(b)), smap }),
            ExpressionToken::NullPtr => Outcome::Value(GenericSyntax { data: Expr::NullPtr, smap }),
            ExpressionToken::CharLiteral(c) => Outcome::Value(GenericSyntax { data: Expr::Literal(LiteralValue::Char(c)), smap }),
            ExpressionToken::StringLiteral(x) => Outcome::Value(GenericSyntax { data: Expr::Literal(LiteralValue::String(x)), smap }),
            ExpressionToken::CStringLiteral(x) => Outcome::Value(GenericSyntax { data: Expr::Literal(LiteralValue::CString(x)), smap }),
            ExpressionToken::LambdaKW => lambda_operand(smap, tokens, msgs),
            _ => Outcome::Nothing,
        }
    }

    /// Reads what follows the operand `lhs` (see `expr_rest`).
    fn expr_rest(lhs: ExprSyntax, tokens: &mut Vec<Token>, minbp: u8, msgs: &mut Vec<CompileMessage>) -> (r: Outcome<ExprSyntax, CompileMessage>)
        ensures
            (parsed_view(r), final(tokens)@, msgs_view(final(msgs)@)) == expr_rest(expr_view(lhs), old(tokens)@, minbp, msgs_view(old(msgs)@)),
        decreases old(tokens)@.len(), 6nat,
    {
        let len0 = tokens.len();
        if !front_is_expression(tokens) {
            return Outcome::Value(lhs);
        }
        let ghost e = tokens@[0].typ->Expression_0;
        let ghost emap = tokens@[0].smap;
        match Self::rest_step(lhs, tokens, minbp, msgs, Ghost(e), Ghost(emap)) {
            Outcome::Value(next) => {
                if tokens.len() < len0 {
                    Self::expr_rest(next, tokens, minbp, msgs)
                } else {
                    Outcome::Value(next)
                }
            },
            other => other,
        }
    }

    /// One step after the operand `lhs` (see `step_spec`).
    fn rest_step(lhs: ExprSyntax, tokens: &mut Vec<Token>, minbp: u8, msgs: &mut Vec<CompileMessage>, Ghost(e): Ghost<ExpressionToken>, Ghost(emap): Ghost<SourceMap>) -> (r: Outcome<ExprSyntax, CompileMessage>)
        requires
            crate::ast::token::peek_expr(old(tokens)@) == Some((e, emap)),
        ensures
            (parsed_view(r), final(tokens)@, msgs_view(final(msgs)@)) == step_spec(expr_view(lhs), e, emap, old(tokens)@, minbp, msgs_view(old(msgs)@)),
        decreases old(tokens)@.len(), 5nat,
    {
        let kind = rest_kind(tokens);
        if kind == 1 {
            Self::step_juxtaposed(lhs, tokens, minbp, msgs, Ghost(e), Ghost(emap))
        } else if kind == 2 {
            Self::step_operator(lhs, tokens, minbp, msgs, Ghost(e), Ghost(emap))
        } else if kind == 3 || kind == 4 {
            Self::step_group(lhs, tokens, kind == 4, msgs, Ghost(e), Ghost(emap))
        } else if kind == 5 {
            Self::step_dot(lhs, tokens, msgs, Ghost(e), Ghost(emap))
        } else if kind == 6 {
            Self::step_cast(lhs, tokens, msgs, Ghost(e), Ghost(emap))
        } else {
            Outcome::Value(lhs)
        }
    }

    fn step_juxtaposed(lhs: ExprSyntax, tokens: &mut Vec<Token>, minbp: u8, msgs: &mut Vec<CompileMessage>, Ghost(e): Ghost<ExpressionToken>, Ghost(emap): Ghost<SourceMap>) -> (r: Outcome<ExprSyntax, CompileMessage>)
        requires
            crate::ast::token::peek_expr(old(tokens)@) == Some((e, emap)),
            e is Identifier || e is IntegerLiteral || e is FloatLiteral,
        ensures
            (parsed_view(r), final(tokens)@, msgs_view(final(msgs)@)) == juxtaposed_spec(expr_view(lhs), emap, old(tokens)@, minbp, msgs_view(old(msgs)@)),
        decreases old(tokens)@.len(), 4nat,
    {
        if 18 < minbp {
            return Outcome::Value(lhs);
        }
        let ghost lv = expr_view(lhs);
        let emap = tokens[0].smap.duplicate();
        match Self::make_expression(tokens, 17, msgs) {
            Outcome::Value(rhs) => {
                let mut s = lhs.smap;
                s.join_with(&rhs.smap);
                let left = GenericSyntax { data: lhs.data, smap: s.duplicate() };
                assert(expr_view(left) == crate::ast::grammar::restamp(lv, s));
                let res = GenericSyntax { data: Expr::BinaryOp(Box::new(BinaryOperation { op: mul_operator(), lhs: left, rhs })), smap: s };
                assert(expr_view(res) == SynV { data: crate::ast::statements::expressions::ExprV::Binary(mul_op(), Box::new(crate::ast::grammar::restamp(lv, s)), Box::new(expr_view(rhs))), smap: s });
                Outcome::Value(res)
            },
            Outcome::Nothing => Outcome::Error(err_at(emap, String::from_str("expected expression"))),
            Outcome::Error(m) => Outcome::Error(m),
        }
    }

    fn step_operator(lhs: ExprSyntax, tokens: &mut Vec<Token>, minbp: u8, msgs: &mut Vec<CompileMessage>, Ghost(e): Ghost<ExpressionToken>, Ghost(emap): Ghost<SourceMap>) -> (r: Outcome<ExprSyntax, CompileMessage>)
        requires
            crate::ast::token::peek_expr(old(tokens)@) == Some((e, emap)),
            e is Operator,
        ensures
            (parsed_view(r), final(tokens)@, msgs_view(final(msgs)@)) == operator_step_spec(expr_view(lhs), e->Operator_0, emap, old(tokens)@, minbp, msgs_view(old(msgs)@)),
        decreases old(tokens)@.len(), 4nat,
    {
        let op = front_operator(tokens);
        if op.bp.effective_lbp() < minbp {
            return Outcome::Value(lhs);
        }
        let t = pop_front(tokens);
        if !op.bp.is_binary() {
            return Outcome::Error(err_at(t.smap, text3("operator ", op.tk, " cannot be used in binary operation")));
        }
        let ghost lv = expr_view(lhs);
        match Self::make_expression(tokens, op.bp.effective_rbp(), msgs) {
            Outcome::Value(rhs) => {
                let mut s = lhs.smap;
                s.join_with(&t.smap);
                s.join_with(&rhs.smap);
                let left = GenericSyntax { data: lhs.data, smap: s.duplicate() };
                assert(expr_view(left) == crate::ast::grammar::restamp(lv, s));
                let res = GenericSyntax { data: Expr::BinaryOp(Box::new(BinaryOperation { op, lhs: left, rhs })), smap: s };
                assert(expr_view(res) == SynV { data: crate::ast::statements::expressions::ExprV::Binary(op, Box::new(crate::ast::grammar::restamp(lv, s)), Box::new(expr_view(rhs))), smap: s });
                Outcome::Value(res)
            },
            Outcome::Nothing => Outcome::Error(err_at(t.smap, text3("expected expression after operator '", op.tk, "'"))),
            Outcome::Error(m) => Outcome::Error(m),
        }
    }

    /// A call (a parenthesised list) or an index (a bracketed one).
    #[verifier::rlimit(80)]
    #[verifier::spinoff_prover]
    fn step_group(lhs: ExprSyntax, tokens: &mut Vec<Token>, bracket: bool, msgs: &mut Vec<CompileMessage>, Ghost(e): Ghost<ExpressionToken>, Ghost(emap): Ghost<SourceMap>) -> (r: Outcome<ExprSyntax, CompileMessage>)
        requires
            crate::ast::token::peek_expr(old(tokens)@) == Some((e, emap)),
            if bracket { e is OpenBracket } else { e is OpenParentheses },
        ensures
            (parsed_view(r), final(tokens)@, msgs_view(final(msgs)@)) == group_step_spec(expr_view(lhs), bracket, emap, old(tokens)@, msgs_view(old(msgs)@)),
        decreases old(tokens)@.len(), 4nat,
    {
        let ghost lv = expr_view(lhs);
        let emap = tokens[0].smap.duplicate();
        match Self::parse_parentheses(tokens, bracket, msgs) {
            Outcome::Value((args, emap2)) => {
                if !bracket {
                    let mut s = lhs.smap;
                    s.join_with(&emap2);
                    let caller = GenericSyntax { data: lhs.data, smap: s.duplicate() };
                    assert(expr_view(caller) == crate::ast::grammar::restamp(lv, s));
                    let res = GenericSyntax { data: Expr::CallOp(Box::new(CallOperation { caller, arguments: args })), smap: s };
                    assert(expr_view(res) == SynV { data: crate::ast::statements::expressions::ExprV::Call(Box::new(crate::ast::grammar::restamp(lv, s)), exprs_view(args@)), smap: s });
                    Outcome::Value(res)
                } else {
                    proof {
                        lemma_exprs_view(args@);
                    }
                    if args.len() != 1 {
                        return Outcome::Error(err_at(emap2, String::from_str("Expected exactly 1 item in indexing operator!")));
                    }
                    let mut index = args;
                    let ghost iv = exprs_view(index@);
                    let i = index.remove(0);
                    assert(expr_view(i) == iv[0]);
                    let mut s = lhs.smap.duplicate();
                    s.join_with(&emap2);
                    let res = GenericSyntax { data: Expr::Index(Box::new(IndexOperation { operand: lhs, index: i })), smap: s };
                    assert(expr_view(res) == SynV { data: crate::ast::statements::expressions::ExprV::Index(Box::new(lv), Box::new(iv[0])), smap: s });
                    Outcome::Value(res)
                }
            },
            Outcome::Nothing => if bracket {
                Outcome::Error(err_at(emap, String::from_str("expected ']' to close this index expression!")))
            } else {
                Outcome::Error(err_at(emap, String::from_str("expected ')' to close this call expression!")))
            },
            Outcome::Error(m) => Outcome::Error(m),
        }
    }

    #[verifier::rlimit(80)]
    #[verifier::spinoff_prover]
    fn step_dot(lhs: ExprSyntax, tokens: &mut Vec<Token>, msgs: &mut Vec<CompileMessage>, Ghost(e): Ghost<ExpressionToken>, Ghost(emap): Ghost<SourceMap>) -> (r: Outcome<ExprSyntax, CompileMessage>)
        requires
            crate::ast::token::peek_expr(old(tokens)@) == Some((e, emap)),
            e is Dot,
        ensures
            (parsed_view(r), final(tokens)@, msgs_view(final(msgs)@)) == dot_step_spec(expr_view(lhs), emap, old(tokens)@, msgs_view(old(msgs)@)),
        decreases old(tokens)@.len(), 4nat,
    {
        let len0 = tokens.len();
        let dot = pop_front(tokens);
        if front_is_op(tokens, "<") {
            let _ = pop_front(tokens);
            let acc: Vec<Type> = Vec::new();
            assert(types_view(acc@) =~= Seq::<TypeV>::empty());
            let targs = TypeSyntax::type_list(tokens, acc, msgs);
            let member: Option<String> = if front_is(tokens, true) {
                let _ = pop_front(tokens);
                match next_expression(tokens) {
                    Some((ExpressionToken::Identifier(name), _)) => Some(name),
                    _ => return Outcome::Error(err_at(dot.smap, String::from_str("expected method name after '.' in generic type call"))),
                }
            } else {
                None
            };
            if !front_is(tokens, false) {
                return Outcome::Error(err_at(dot.smap, String::from_str("expected '(' after generic type arguments in generic call")));
            }
            if tokens.len() > len0 {
                return Outcome::Value(lhs);
            }
            match Self::parse_parentheses(tokens, false, msgs) {
                Outcome::Value((args, emap2)) => {
                    let mut s = lhs.smap.duplicate();
                    s.join_with(&emap2);
                    Outcome::Value(GenericSyntax {
                        data: Expr::GenericCall(Box::new(GenericCallOperation { callee: lhs, type_args: targs, member, arguments: args })),
                        smap: s,
                    })
                },
                Outcome::Nothing => Outcome::Error(err_at(dot.smap, String::from_str("expected ')' to close generic call arguments"))),
                Outcome::Error(m) => Outcome::Error(m),
            }
        } else {
            match next_expression(tokens) {
                Some((ExpressionToken::Identifier(member), msmap)) => {
                    let mut s = lhs.smap.duplicate();
                    s.join_with(&msmap);
                    Outcome::Value(GenericSyntax { data: Expr::MemberAccess(Box::new(MemberAccessOperation { object: lhs, member })), smap: s })
                },
                _ => Outcome::Error(err_at(dot.smap, String::from_str("expected member name after '.'"))),
            }
        }
    }

    fn step_cast(lhs: ExprSyntax, tokens: &mut Vec<Token>, msgs: &mut Vec<CompileMessage>, Ghost(e): Ghost<ExpressionToken>, Ghost(emap): Ghost<SourceMap>) -> (r: Outcome<ExprSyntax, CompileMessage>)
        requires
            crate::ast::token::peek_expr(old(tokens)@) == Some((e, emap)),
            e is AsKW,
        ensures
            (parsed_view(r), final(tokens)@, msgs_view(final(msgs)@)) == cast_step_spec(expr_view(lhs), emap, old(tokens)@, msgs_view(old(msgs)@)),
        decreases old(tokens)@.len(), 4nat,
    {
        let t = pop_front(tokens);
        match TypeSyntax::parse(tokens, msgs) {
            Some(ty) => {
                let mut s = lhs.smap.duplicate();
                s.join_with(&ty.smap);
                Outcome::Value(GenericSyntax { data: Expr::CastOp(Box::new(CastOperation { expr: lhs, ty: ty.data })), smap: s })
            },
            None => Outcome::Error(err_at(t.smap, String::from_str("expected type after `as`"))),
        }
    }

    /// Reads a parenthesised (or, when `bracket`, bracketed) list of
    /// expressions (see `parens_spec`).
    pub fn parse_parentheses(tokens: &mut Vec<Token>, bracket: bool, msgs: &mut Vec<CompileMessage>) -> (r: Outcome<(Vec<ExprSyntax>, SourceMap), CompileMessage>)
        ensures
            (list_view(r), final(tokens)@, msgs_view(final(msgs)@)) == parens_spec(old(tokens)@, bracket, msgs_view(old(msgs)@)),
        decreases old(tokens)@.len(), 3nat,
    {
        if !front_is_expression(tokens) {
            return Outcome::Nothing;
        }
        let smap = tokens[0].smap.duplicate();
        if front_groups(tokens, bracket, false) {
            let _ = pop_front(tokens);
        }
        let acc: Vec<ExprSyntax> = Vec::new();
        assert(exprs_view(acc@) =~= Seq::<SynV>::empty());
        Self::parens_items(tokens, bracket, smap, acc, msgs)
    }

    fn parens_items(tokens: &mut Vec<Token>, bracket: bool, smap: SourceMap, acc: Vec<ExprSyntax>, msgs: &mut Vec<CompileMessage>) -> (r: Outcome<(Vec<ExprSyntax>, SourceMap), CompileMessage>)
        ensures
            (list_view(r), final(tokens)@, msgs_view(final(msgs)@)) == parens_items(old(tokens)@, bracket, smap, exprs_view(acc@), msgs_view(old(msgs)@)),
        decreases old(tokens)@.len(), 2nat,
    {
        let len0 = tokens.len();
        match Self::make_expression(tokens, 0, msgs) {
            Outcome::Nothing => Outcome::Value((acc, smap)),
            Outcome::Error(m) => Outcome::Error(m),
            Outcome::Value(x) => {
                let mut smap1 = smap;
                smap1.join_with(&x.smap);
                let mut acc1 = acc;
                proof {
                    lemma_exprs_view_push(acc1@, x);
                }
                acc1.push(x);
                if front_groups(tokens, bracket, true) {
                    let t = pop_front(tokens);
                    smap1.join_with(&t.smap);
                    Outcome::Value((acc1, smap1))
                } else if front_is_comma(tokens) {
                    let t = pop_front(tokens);
                    smap1.join_with(&t.smap);
                    if tokens.len() < len0 {
                        Self::parens_items(tokens, bracket, smap1, acc1, msgs)
                    } else {
                        Outcome::Value((acc1, smap1))
                    }
                } else if tokens.len() > 0 {
                    let t = pop_front(tokens);
                    let mut text = text3("Expected '", close_str(bracket), "', got token: ");
                    let d = describe_token(&t.typ);
                    text.append(d.as_str());
                    let n = CompileMessage::note(smap1, text3("Note: to end this expression starting with '", open_str(bracket), "'"));
                    let m = CompileMessage::new(t.smap, text, CompileMessageType::Error).add_note(n);
                    assert(msg_view(m).notes =~= seq![note_view(n)]);
                    Outcome::Error(m)
                } else {
                    Outcome::Error(err_at(smap1, text3("Expected '", close_str(bracket), "' to end this expression")))
                }
            },
        }
    }

    /// Reads an expression as a whole (see `expr_parse_spec`): an error is
    /// added to `msgs`.
    pub fn parse(tokens: &mut Vec<Token>, msgs: &mut Vec<CompileMessage>) -> (r: Option<ExprSyntax>)
        ensures
            (opt_expr_view(r), final(tokens)@, msgs_view(final(msgs)@)) == expr_parse_spec(old(tokens)@, msgs_view(old(msgs)@)),
        decreases old(tokens)@.len(), 2nat,
    {
        match Self::make_expression(tokens, 0, msgs) {
            Outcome::Value(v) => Some(v),
            Outcome::Nothing => None,
            Outcome::Error(e) => {
                emit(msgs, e);
                None
            },
        }
    }
}

/// The name of the token, if any, for an "expected" message.
fn describe_opt(t: &Option<Token>) -> (r: Option<String>)
    ensures
        match r {
            Some(x) => crate::ast::grammar::found_text(*t) == Some(x@),
            None => crate::ast::grammar::found_text(*t) is None,
        },
{
    match t {
        Some(tk) => Some(describe_token(&tk.typ)),
        None => None,
    }
}

fn as_opt_str(d: &Option<String>) -> (r: Option<&str>)
    ensures
        match r {
            Some(x) => *d matches Some(y) && x@ == y@,
            None => d is None,
        },
{
    match d {
        Some(x) => Some(x.as_str()),
        None => None,
    }
}

fn take_front(tokens: &mut Vec<Token>) -> (r: Option<Token>)
    ensures
        (r, final(tokens)@) == crate::ast::grammar::pop_spec(old(tokens)@),
{
    if tokens.len() > 0 {
        Some(pop_front(tokens))
    } else {
        None
    }
}

fn is_expr_token(t: &Option<Token>, bracket: bool) -> (r: bool)
    ensures
        r == (if bracket {
            *t matches Some(tk) && tk.typ matches TokenType::Expression(ExpressionToken::CloseBracket)
        } else {
            *t matches Some(tk) && tk.typ matches TokenType::Expression(ExpressionToken::CloseParentheses)
        }),
{
    match t {
        Some(tk) => match &tk.typ {
            TokenType::Expression(ExpressionToken::CloseBracket) => bracket,
            TokenType::Expression(ExpressionToken::CloseParentheses) => !bracket,
            _ => false,
        },
        None => false,
    }
}

impl GenericSyntax<Type> {
    /// Reads a type from the front of the tokens (see `type_spec`).
    pub fn parse(tokens: &mut Vec<Token>, msgs: &mut Vec<CompileMessage>) -> (r: Option<TypeSyntax>)
        ensures
            (opt_tsyn_view(r), final(tokens)@, msgs_view(final(msgs)@)) == type_spec(old(tokens)@, msgs_view(old(msgs)@)),
        decreases old(tokens)@.len(), 1nat,
    {
        let is_name = tokens.len() > 0 && match &tokens[0].typ {
            TokenType::Expression(ExpressionToken::Identifier(_)) => true,
            _ => false,
        };
        if !is_name {
            return None;
        }
        let len0 = tokens.len();
        let t = pop_front(tokens);
        let (name, smap) = match t.typ {
            TokenType::Expression(ExpressionToken::Identifier(n)) => (n, t.smap),
            _ => {
                proof {
                    assert(false);
                }
                return None;
            },
        };
        let base = if front_is_op(tokens, "<") {
            let _ = pop_front(tokens);
            let acc: Vec<Type> = Vec::new();
            assert(types_view(acc@) =~= Seq::<TypeV>::empty());
            let params = Self::type_list(tokens, acc, msgs);
            Type::Generic { name, params }
        } else {
            Type::Typename(name)
        };
        let mut res = GenericSyntax { data: base, smap };
        if tokens.len() < len0 {
            res.parse_mods(tokens, msgs);
        }
        Some(res)
    }

    /// Reads a list of types up to and with a `>`, after the types `acc`
    /// (see `type_list_spec`).
    fn type_list(tokens: &mut Vec<Token>, acc: Vec<Type>, msgs: &mut Vec<CompileMessage>) -> (r: Vec<Type>)
        ensures
            (types_view(r@), final(tokens)@, msgs_view(final(msgs)@)) == type_list_spec(old(tokens)@, types_view(acc@), msgs_view(old(msgs)@)),
        decreases old(tokens)@.len(), 2nat,
    {
        let len0 = tokens.len();
        if front_is_op(tokens, ">") {
            let _ = pop_front(tokens);
            return acc;
        }
        match Self::parse(tokens, msgs) {
            None => acc,
            Some(p) => {
                let mut acc1 = acc;
                proof {
                    lemma_types_view_push(acc1@, p.data);
                }
                acc1.push(p.data);
                if front_is_op(tokens, ">") {
                    let _ = pop_front(tokens);
                    acc1
                } else if front_is_comma(tokens) {
                    let _ = pop_front(tokens);
                    if tokens.len() < len0 {
                        Self::type_list(tokens, acc1, msgs)
                    } else {
                        acc1
                    }
                } else {
                    acc1
                }
            },
        }
    }

    /// Reads the parameter types of a function pointer type, after the types
    /// `acc` (see `fn_params_spec`).
    fn fn_params(tokens: &mut Vec<Token>, acc: Vec<Type>, msgs: &mut Vec<CompileMessage>) -> (r: Vec<Type>)
        ensures
            (types_view(r@), final(tokens)@, msgs_view(final(msgs)@)) == fn_params_spec(old(tokens)@, types_view(acc@), msgs_view(old(msgs)@)),
        decreases old(tokens)@.len(), 2nat,
    {
        let len0 = tokens.len();
        if front_groups(tokens, false, true) {
            return acc;
        }
        match Self::parse(tokens, msgs) {
            None => acc,
            Some(p) => {
                let mut acc1 = acc;
                proof {
                    lemma_types_view_push(acc1@, p.data);
                }
                acc1.push(p.data);
                if front_is_comma(tokens) {
                    let _ = pop_front(tokens);
                    if tokens.len() < len0 {
                        Self::fn_params(tokens, acc1, msgs)
                    } else {
                        acc1
                    }
                } else {
                    acc1
                }
            },
        }
    }

    /// Reads modifiers after the type until one cannot be read (see
    /// `mods_spec`).
    fn parse_mods(&mut self, tokens: &mut Vec<Token>, msgs: &mut Vec<CompileMessage>)
        ensures
            (tsyn_view(*final(self)), final(tokens)@, msgs_view(final(msgs)@)) == mods_spec(tsyn_view(*old(self)), old(tokens)@, msgs_view(old(msgs)@)),
        decreases old(tokens)@.len(), 2nat,
    {
        let len0 = tokens.len();
        let ok = self.parse_next_modifier(tokens, msgs);
        if ok && tokens.len() < len0 {
            self.parse_mods(tokens, msgs);
        }
    }

    /// Replaces the type by `f` applied to it.
    fn take_data(&mut self) -> (d: Type)
        ensures
            d == old(self).data,
            final(self).smap == old(self).smap,
    {
        let mut d = Type::Typename(String::new());
        std::mem::swap(&mut d, &mut self.data);
        d
    }

    /// `[]` or `[n]` after the type (see `modifier_spec`).
    #[verifier::rlimit(80)]
    #[verifier::spinoff_prover]
    fn modify_bracket(&mut self, tokens: &mut Vec<Token>, msgs: &mut Vec<CompileMessage>) -> (r: bool)
        requires
            crate::ast::token::peek_expr(old(tokens)@) matches Some((ExpressionToken::OpenBracket, _)),
        ensures
            (r, tsyn_view(*final(self)), final(tokens)@, msgs_view(final(msgs)@))
                == bracket_mod_spec(tsyn_view(*old(self)), old(tokens)@[0].smap, crate::ast::token::tail(old(tokens)@), msgs_view(old(msgs)@)),
        decreases old(tokens)@.len(), 0nat,
    {
        let t = pop_front(tokens);
        let open_smap = t.smap.duplicate();
        self.smap.join_with(&t.smap);
        if front_groups(tokens, true, true) {
            let d = self.take_data();
            self.data = Type::Slice(Box::new(d));
        } else {
            match GenericSyntax::<Expr>::parse(tokens, msgs) {
                Some(expr) => {
                    self.smap.join_with(&expr.smap);
                    match eval_array_len_expr_uint(&expr, msgs) {
                        Some(v) => {
                            let d = self.take_data();
                            self.data = Type::Array { ty: Box::new(d), size: v as usize };
                        },
                        None => return false,
                    }
                },
                None => {},
            }
        }
        self.close_bracket(tokens, msgs, open_smap)
    }

    /// The `]` that ends a bracket modifier (see `close_bracket_spec`).
    fn close_bracket(&mut self, tokens: &mut Vec<Token>, msgs: &mut Vec<CompileMessage>, open_smap: SourceMap) -> (r: bool)
        ensures
            (r, tsyn_view(*final(self)), final(tokens)@, msgs_view(final(msgs)@))
                == crate::ast::grammar::close_bracket_spec(type_view(old(self).data), old(self).smap, open_smap, old(tokens)@, msgs_view(old(msgs)@)),
    {
        let next = take_front(tokens);
        if is_expr_token(&next, true) {
            match next {
                Some(tk) => self.smap.join_with(&tk.smap),
                None => {},
            }
            true
        } else {
            let d = describe_opt(&next);
            let m = CompileMessage::expected_token_error(self.smap.duplicate(), "']'", "'['", as_opt_str(&d));
            let n = CompileMessage::note(open_smap, String::from_str("after this open bracket"));
            let m = m.add_note(n);
            assert(msg_view(m).notes =~= seq![note_view(n)]);
            emit(msgs, m);
            false
        }
    }


    /// A list of parameter types after the type (see `modifier_spec`).
    fn modify_fn_pointer(&mut self, tokens: &mut Vec<Token>, msgs: &mut Vec<CompileMessage>) -> (r: bool)
        requires
            crate::ast::token::peek_expr(old(tokens)@) matches Some((ExpressionToken::OpenParentheses, _)),
        ensures
            (r, tsyn_view(*final(self)), final(tokens)@, msgs_view(final(msgs)@))
                == fn_mod_spec(tsyn_view(*old(self)), old(tokens)@[0].smap, crate::ast::token::tail(old(tokens)@), msgs_view(old(msgs)@)),
        decreases old(tokens)@.len(), 0nat,
    {
            let t = pop_front(tokens);
        self.smap.join_with(&t.smap);
        let acc: Vec<Type> = Vec::new();
        assert(types_view(acc@) =~= Seq::<TypeV>::empty());
        let params = Self::fn_params(tokens, acc, msgs);
        let close = take_front(tokens);
        if is_expr_token(&close, false) {
            match close {
                Some(tk) => self.smap.join_with(&tk.smap),
                None => {},
            }
            let d = self.take_data();
            self.data = Type::FnPtr { ret: Box::new(d), params };
            true
        } else {
            let d = describe_opt(&close);
            let m = CompileMessage::expected_token_error(self.smap.duplicate(), "')'", "'('", as_opt_str(&d));
            assert(msg_view(m).notes =~= Seq::<NoteV>::empty());
            emit(msgs, m);
            false
        }
    }

    /// Reads one modifier after the type, which applies to it (see
    /// `modifier_spec`): whether one was read.
    pub fn parse_next_modifier(&mut self, tokens: &mut Vec<Token>, msgs: &mut Vec<CompileMessage>) -> (r: bool)
        ensures
            (r, tsyn_view(*final(self)), final(tokens)@, msgs_view(final(msgs)@)) == modifier_spec(tsyn_view(*old(self)), old(tokens)@, msgs_view(old(msgs)@)),
        decreases old(tokens)@.len(), 1nat,
    {
        let kind = rest_kind(tokens);
        if kind == 2 {
            let op = front_operator(tokens);
            let pointer = str_eq(op.tk, "*");
            if !pointer && !str_eq(op.tk, "&") {
                return false;
            }
            let t = pop_front(tokens);
            self.smap.join_with(&t.smap);
            let d = self.take_data();
            self.data = if pointer { Type::Pointer(Box::new(d)) } else { Type::Reference(Box::new(d)) };
            true
        } else if kind == 4 {
            self.modify_bracket(tokens, msgs)
        } else if kind == 3 {
            self.modify_fn_pointer(tokens, msgs)
        } else {
            false
        }
    }
}

pub open spec fn opt_vardecl_view(v: Option<VarDeclSyntax>) -> Option<VarDeclV> {
    match v {
        Some(x) => Some(vardecl_view(x)),
        None => None,
    }
}

/// A block as plain values: its statements and its span.
pub open spec fn block_view(b: BlockSyntax) -> (Seq<StatementV>, SourceMap) {
    (statements_view(b.data@), b.smap)
}

pub open spec fn opt_block_view(b: Option<BlockSyntax>) -> Option<(Seq<StatementV>, SourceMap)> {
    match b {
        Some(x) => Some(block_view(x)),
        None => None,
    }
}

/// The outcome of reading a block, as plain values.
pub open spec fn block_outcome_view(r: Outcome<BlockSyntax, CompileMessage>) -> Parsed<(Seq<StatementV>, SourceMap)> {
    match r {
        Outcome::Value(b) => Parsed::Value(block_view(b)),
        Outcome::Nothing => Parsed::Nothing,
        Outcome::Error(m) => Parsed::Error(msg_view(m)),
    }
}

fn front_is_feature(tokens: &Vec<Token>, k: u8) -> (r: bool)
    ensures
        r == crate::ast::grammar::next_is_feature(tokens@, if k == 0 {
            FeatureToken::OpenBrace
        } else if k == 1 {
            FeatureToken::CloseBrace
        } else if k == 2 {
            FeatureToken::StatementEnd
        } else if k == 3 {
            FeatureToken::Colon
        } else {
            FeatureToken::Comma
        }),
{
    if tokens.len() == 0 {
        return false;
    }
    match &tokens[0].typ {
        TokenType::Feature(FeatureToken::OpenBrace) => k == 0,
        TokenType::Feature(FeatureToken::CloseBrace) => k == 1,
        TokenType::Feature(FeatureToken::StatementEnd) => k == 2,
        TokenType::Feature(FeatureToken::Colon) => k == 3,
        TokenType::Feature(FeatureToken::Comma) => k > 3,
        _ => false,
    }
}

fn front_is_public(tokens: &Vec<Token>) -> (r: bool)
    ensures
        r == crate::ast::grammar::next_is_keyword(tokens@, StatementToken::PublicKW),
{
    tokens.len() > 0 && match &tokens[0].typ {
        TokenType::Statement(StatementToken::PublicKW) => true,
        _ => false,
    }
}

fn starts_declaration(tokens: &Vec<Token>) -> (r: bool)
    ensures
        r == (tokens@.len() > 1 && (tokens@[0].typ matches TokenType::Expression(ExpressionToken::Identifier(_)))
            && tokens@[1].typ == TokenType::Feature(FeatureToken::Colon)),
{
    tokens.len() > 1 && match &tokens[0].typ {
        TokenType::Expression(ExpressionToken::Identifier(_)) => true,
        _ => false,
    } && match &tokens[1].typ {
        TokenType::Feature(FeatureToken::Colon) => true,
        _ => false,
    }
}

fn debug_name(name: &String) -> (r: String)
    ensures
        r@ == "expected type after variable declaration: \""@ + name@ + "\""@,
{
    text3("expected type after variable declaration: \"", name.as_str(), "\"")
}

impl GenericSyntax<VarDecl> {
    /// Reads a variable declaration (see `vardecl_spec`).
    pub fn parse(tokens: &mut Vec<Token>, msgs: &mut Vec<CompileMessage>) -> (r: Option<VarDeclSyntax>)
        ensures
            (opt_vardecl_view(r), final(tokens)@, msgs_view(final(msgs)@)) == vardecl_spec(old(tokens)@, msgs_view(old(msgs)@)),
        decreases old(tokens)@.len(), 0nat,
    {
        let len0 = tokens.len();
        let public = front_is_public(tokens);
        let psmap = if public { Some(pop_front(tokens).smap) } else { None };
        if !starts_declaration(tokens) {
            return None;
        }
        let t = pop_front(tokens);
        let _ = pop_front(tokens);
        let (name, ident_smap) = match t.typ {
            TokenType::Expression(ExpressionToken::Identifier(n)) => (n, t.smap),
            _ => {
                proof {
                    assert(false);
                }
                return None;
            },
        };
        let mut smap = match psmap {
            Some(p) => {
                let mut p = p;
                p.join_with(&ident_smap);
                p
            },
            None => ident_smap,
        };
        let ty = match TypeSyntax::parse(tokens, msgs) {
            Some(ty) => ty,
            None => {
                emit(msgs, err_at(smap, debug_name(&name)));
                return None;
            },
        };
        smap.join_with(&ty.smap);
        if front_is_op(tokens, "=") && tokens.len() <= len0 {
            let opt = pop_front(tokens);
            match GenericSyntax::<Expr>::parse(tokens, msgs) {
                None => {
                    smap.join_with(&opt.smap);
                    emit(msgs, err_at(smap, String::from_str("expected expression after '='")));
                    None
                },
                Some(v) => {
                    smap.join_with(&v.smap);
                    Some(GenericSyntax { data: VarDecl { name, ty: ty.data, value: Some(v), public }, smap })
                },
            }
        } else {
            Some(GenericSyntax { data: VarDecl { name, ty: ty.data, value: None, public }, smap })
        }
    }
}

/// Reads a statement of a block (see `statement_spec`).
#[verifier::rlimit(60)]
#[verifier::spinoff_prover]
fn parse_statement(tokens: &mut Vec<Token>, msgs: &mut Vec<CompileMessage>) -> (r: Option<(Statement, SourceMap)>)
    ensures
        (match r {
            Some((st, sm)) => Some((statement_view(st), sm)),
            None => None,
        }, final(tokens)@, msgs_view(final(msgs)@)) == statement_spec(old(tokens)@, msgs_view(old(msgs)@)),
    decreases old(tokens)@.len(), 3nat,
{
    let len0 = tokens.len();
    match VarDeclSyntax::parse(tokens, msgs) {
        Some(d) => {
            let ghost dv = vardecl_view(d);
            let st = Statement::VariableDeclaration(d.data);
            assert(statement_view(st) == StatementV::VariableDeclaration(dv.name, dv.ty, dv.value, dv.public));
            Some((st, d.smap))
        },
        None => {
            if tokens.len() > len0 {
                return None;
            }
            match GenericSyntax::<Expr>::parse(tokens, msgs) {
                Some(e) => Some((Statement::Expression(e.data), e.smap)),
                None => None,
            }
        },
    }
}

impl GenericSyntax<Vec<Statement>> {
    /// Reads a block (see `block_spec`).
    pub fn make_block(tokens: &mut Vec<Token>, msgs: &mut Vec<CompileMessage>) -> (r: Outcome<BlockSyntax, CompileMessage>)
        ensures
            (block_outcome_view(r), final(tokens)@, msgs_view(final(msgs)@)) == block_spec(old(tokens)@, msgs_view(old(msgs)@)),
        decreases old(tokens)@.len(), 0nat,
    {
        if !front_is_feature(tokens, 0) {
            return Outcome::Nothing;
        }
        let t = pop_front(tokens);
        let acc: Vec<Statement> = Vec::new();
        assert(statements_view(acc@) =~= Seq::<StatementV>::empty());
        Self::block_items(tokens, t.smap.duplicate(), t.smap, acc, msgs)
    }

    fn block_items(tokens: &mut Vec<Token>, open: SourceMap, smap: SourceMap, acc: Vec<Statement>, msgs: &mut Vec<CompileMessage>) -> (r: Outcome<BlockSyntax, CompileMessage>)
        ensures
            (block_outcome_view(r), final(tokens)@, msgs_view(final(msgs)@)) == block_items(old(tokens)@, open, smap, statements_view(acc@), msgs_view(old(msgs)@)),
        decreases old(tokens)@.len(), 4nat,
    {
        let len0 = tokens.len();
        if front_is_feature(tokens, 1) {
            let _ = pop_front(tokens);
            return Outcome::Value(GenericSyntax { data: acc, smap });
        }
        if front_is_feature(tokens, 2) {
            let _ = pop_front(tokens);
            return Self::block_items(tokens, open, smap, acc, msgs);
        }
        match parse_statement(tokens, msgs) {
            Some((x, ssmap)) => {
                let mut smap1 = smap;
                smap1.join_with(&ssmap);
                let mut acc1 = acc;
                proof {
                    lemma_statements_view_push(acc1@, x);
                }
                acc1.push(x);
                if tokens.len() < len0 {
                    Self::block_items(tokens, open, smap1, acc1, msgs)
                } else {
                    Outcome::Value(GenericSyntax { data: acc1, smap: smap1 })
                }
            },
            None => {
                if tokens.len() > 0 {
                    let t = pop_front(tokens);
                    let d = describe_token(&t.typ);
                    let n = CompileMessage::note(t.smap.duplicate(), String::from_str("expected statement"));
                    let mut txt = String::from_str("didnt expect token: ");
                    txt.append(d.as_str());
                    let m = CompileMessage::new(t.smap, txt, CompileMessageType::Error);
                    let m = m.add_note(n);
                    assert(msg_view(m).notes =~= seq![note_view(n)]);
                    Outcome::Error(m)
                } else {
                    Outcome::Error(err_at(open, String::from_str("unclosed '}'")))
                }
            },
        }
    }

    /// Reads a block as a whole (see `block_parse_spec`): an error is added
    /// to `msgs`.
    pub fn parse(tokens: &mut Vec<Token>, msgs: &mut Vec<CompileMessage>) -> (r: Option<BlockSyntax>)
        ensures
            (opt_block_view(r), final(tokens)@, msgs_view(final(msgs)@)) == block_parse_spec(old(tokens)@, msgs_view(old(msgs)@)),
        decreases old(tokens)@.len(), 1nat,
    {
        match Self::make_block(tokens, msgs) {
            Outcome::Value(b) => Some(b),
            Outcome::Nothing => None,
            Outcome::Error(m) => {
                emit(msgs, m);
                None
            },
        }
    }
}

/// The parameters of a lambda (see `lambda_params`).
fn read_lambda_params(tokens: &mut Vec<Token>, acc: Vec<VarDeclSyntax>, msgs: &mut Vec<CompileMessage>) -> (r: (Vec<VarDeclSyntax>, Option<bool>))
    ensures
        (vardecls_view(r.0@), r.1, final(tokens)@, msgs_view(final(msgs)@)) == lambda_params(old(tokens)@, vardecls_view(acc@), msgs_view(old(msgs)@)),
    decreases old(tokens)@.len(), 1nat,
{
    let len0 = tokens.len();
    match VarDeclSyntax::parse(tokens, msgs) {
        None => (acc, Some(false)),
        Some(d) => {
            let mut acc1 = acc;
            proof {
                lemma_vardecls_view_push(acc1@, d);
            }
            acc1.push(d);
            let comma = front_is_comma(tokens);
            let next = take_front(tokens);
            if comma {
                if tokens.len() < len0 {
                    read_lambda_params(tokens, acc1, msgs)
                } else {
                    (acc1, Some(false))
                }
            } else if is_expr_token(&next, false) {
                (acc1, Some(true))
            } else {
                (acc1, None)
            }
        },
    }
}

/// A lambda after its keyword, whose span is `smap` (see `lambda_spec`).
fn lambda_operand(smap: SourceMap, tokens: &mut Vec<Token>, msgs: &mut Vec<CompileMessage>) -> (r: Outcome<ExprSyntax, CompileMessage>)
    ensures
        (parsed_view(r), final(tokens)@, msgs_view(final(msgs)@)) == lambda_spec(smap, old(tokens)@, msgs_view(old(msgs)@)),
    decreases old(tokens)@.len(), 0nat,
{
    let len0 = tokens.len();
    if !front_groups(tokens, false, false) {
        emit(msgs, err_at(smap, String::from_str("expected '(' after 'lambda'")));
        return Outcome::Nothing;
    }
    let _ = pop_front(tokens);
    let acc: Vec<VarDeclSyntax> = Vec::new();
    assert(vardecls_view(acc@) =~= Seq::<VarDeclV>::empty());
    let (parameters, closed) = read_lambda_params(tokens, acc, msgs);
    let c = match closed {
        None => {
            emit(msgs, err_at(smap, String::from_str("expected ',' or ')' in lambda parameter list")));
            return Outcome::Nothing;
        },
        Some(c) => c,
    };
    if !c {
        if front_groups(tokens, false, true) {
            let _ = pop_front(tokens);
        } else {
            emit(msgs, err_at(smap, String::from_str("expected ')' after lambda parameter list")));
            return Outcome::Nothing;
        }
    }
    if tokens.len() > len0 {
        return Outcome::Nothing;
    }
    let ret_ty = if front_is_op(tokens, "=") {
        let _ = pop_front(tokens);
        match TypeSyntax::parse(tokens, msgs) {
            Some(t) => Some(t.data),
            None => None,
        }
    } else {
        None
    };
    if tokens.len() >= len0 {
        return Outcome::Nothing;
    }
    match BlockSyntax::parse(tokens, msgs) {
        None => {
            emit(msgs, err_at(smap, String::from_str("expected '{' for lambda body")));
            Outcome::Nothing
        },
        Some(body) => Outcome::Value(GenericSyntax { data: Expr::Lambda(Box::new(LambdaExpr { parameters, ret_ty, body })), smap }),
    }
}

} // verus!
