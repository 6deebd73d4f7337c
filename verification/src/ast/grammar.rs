use vstd::prelude::*;
use crate::ast::statements::expressions::{ExprV, LiteralValue, StatementV, SynV, VarDeclV};
use crate::ast::token::{ExpressionToken, FeatureToken, StatementToken, Token, TokenType, next_is_comma, next_is_op, peek_expr, tail};
use crate::ast::ty::TypeV;
use crate::common::operator::{BindingPower, Operator};
use crate::common::sourcemap::{SourceMap, join};
use crate::compiler::compile_message::{MsgV, NoteV, error_msg, expected_text};
use crate::compiler::CompileMessageType;
use crate::consteval::const_len;

verus! {

/// What reading a piece of syntax gave: the syntax, nothing (the tokens did
/// not start it), or an error.
pub enum Parsed<T> {
    Value(T),
    Nothing,
    Error(MsgV),
}

/// The operator of a multiplication that is written by putting two
/// operands side by side.
pub open spec fn mul_op() -> Operator {
    Operator { bp: BindingPower::Binary(18, 17), tk: "*" }
}

/// How a token is named in messages.
pub open spec fn token_text(t: TokenType) -> Seq<char> {
    match t {
        TokenType::Expression(e) => match e {
            ExpressionToken::Operator(op) => "'"@ + op.tk@ + "'"@,
            ExpressionToken::Identifier(s) => "identifier "@ + s@,
            ExpressionToken::OpenParentheses => "'('"@,
            ExpressionToken::CloseParentheses => "')'"@,
            ExpressionToken::OpenBracket => "'['"@,
            ExpressionToken::CloseBracket => "']'"@,
            ExpressionToken::IntegerLiteral(_) => "integer literal"@,
            ExpressionToken::FloatLiteral(_) => "float literal"@,
            ExpressionToken::StringLiteral(_) => "string literal"@,
            ExpressionToken::CStringLiteral(_) => "c string literal"@,
            ExpressionToken::CharLiteral(_) => "char literal"@,
            ExpressionToken::BoolLiteral(_) => "bool literal"@,
            ExpressionToken::Dot => "'.'"@,
            ExpressionToken::NullPtr => "'nullptr'"@,
            ExpressionToken::LambdaKW => "'lambda'"@,
            ExpressionToken::AsKW => "'as'"@,
        },
        TokenType::Feature(f) => match f {
            FeatureToken::Comma => "','"@,
            FeatureToken::OpenBrace => "'{'"@,
            FeatureToken::CloseBrace => "'}'"@,
            FeatureToken::StatementEnd => "';'"@,
            FeatureToken::Colon => "':'"@,
        },
        TokenType::Statement(_) => "keyword"@,
    }
}

/// The name of the token taken, if any, in an "expected" message.
pub open spec fn found_text(t: Option<Token>) -> Option<Seq<char>> {
    match t {
        Some(tk) => Some(token_text(tk.typ)),
        None => None,
    }
}

/// Takes the first token, if any.
pub open spec fn pop_spec(ts: Seq<Token>) -> (Option<Token>, Seq<Token>) {
    if ts.len() > 0 {
        (Some(ts[0]), tail(ts))
    } else {
        (None, ts)
    }
}

/// Whether an expression token opens (or closes) the kind of group read:
/// brackets when `bracket`, else parentheses.
pub open spec fn is_open(e: ExpressionToken, bracket: bool) -> bool {
    if bracket { e is OpenBracket } else { e is OpenParentheses }
}

pub open spec fn is_close(e: ExpressionToken, bracket: bool) -> bool {
    if bracket { e is CloseBracket } else { e is CloseParentheses }
}

/// Whether the first token closes the kind of group read.
pub open spec fn next_closes(ts: Seq<Token>, bracket: bool) -> bool {
    match peek_expr(ts) {
        Some((e, _)) => is_close(e, bracket),
        None => false,
    }
}

pub open spec fn open_char(bracket: bool) -> Seq<char> {
    if bracket { "["@ } else { "("@ }
}

pub open spec fn close_char(bracket: bool) -> Seq<char> {
    if bracket { "]"@ } else { ")"@ }
}

/// A leaf expression read from a single token, if the token is one.
pub open spec fn leaf_expr(e: ExpressionToken) -> Option<ExprV> {
    match e {
        ExpressionToken::Identifier(s) => Some(ExprV::Identifier(s)),
        ExpressionToken::IntegerLiteral(i) => Some(ExprV::Literal(LiteralValue::Integer(i))),
        ExpressionToken::FloatLiteral(f) => Some(ExprV::Literal(LiteralValue::Float(f))),
        ExpressionToken::BoolLiteral(b) => Some(ExprV::Literal(LiteralValue::Bool(b))),
        ExpressionToken::NullPtr => Some(ExprV::NullPtr),
        ExpressionToken::CharLiteral(c) => Some(ExprV::Literal(LiteralValue::Char(c))),
        ExpressionToken::StringLiteral(s) => Some(ExprV::Literal(LiteralValue::String(s))),
        ExpressionToken::CStringLiteral(s) => Some(ExprV::Literal(LiteralValue::CString(s))),
        _ => None,
    }
}


/// The left binding power of an operator (see `BindingPower::effective_lbp`).
pub open spec fn lbp(bp: BindingPower) -> u8 {
    match bp {
        BindingPower::Binary(l, _) => l,
        BindingPower::BinaryOrUnary(l, _) => l,
        BindingPower::Unary => 0u8,
        BindingPower::PostFix => 100u8,
    }
}

/// The right binding power of an operator (see `BindingPower::effective_rbp`).
pub open spec fn rbp(bp: BindingPower) -> u8 {
    match bp {
        BindingPower::Binary(_, r) => r,
        BindingPower::BinaryOrUnary(_, r) => r,
        BindingPower::Unary => 255u8,
        BindingPower::PostFix => 101u8,
    }
}

pub open spec fn restamp(e: SynV, s: SourceMap) -> SynV {
    SynV { data: e.data, smap: s }
}

/// Reading an expression whose binary operators bind at least `minbp`
/// (a Pratt parser): the first operand, then the operators after it (see
/// `expr_rest`). The first operand is a name or a literal; a unary
/// operator and the operand after it, read with the operator's unary
/// binding power; a parenthesised list, which is its one element when it
/// holds one and a tuple otherwise; or a bracketed list, an array. Any
/// other expression token is taken and gives nothing; a token that is no
/// expression token stays and gives nothing.
pub open spec fn expr_spec(ts: Seq<Token>, minbp: u8, ms: Seq<MsgV>) -> (Parsed<SynV>, Seq<Token>, Seq<MsgV>)
    decreases ts.len(), 2nat,
{
    match peek_expr(ts) {
        None => (Parsed::Nothing, ts, ms),
        Some((e, smap)) => {
            let first = first_spec(e, smap, tail(ts), ms);
            match first.0 {
                Parsed::Value(lhs) => if first.1.len() < ts.len() {
                    expr_rest(lhs, first.1, minbp, first.2)
                } else {
                    first
                },
                _ => first,
            }
        },
    }
}

/// The first operand of an expression, which starts with the token `e`
/// (whose span is `smap`), followed by `rest`.
pub open spec fn first_spec(e: ExpressionToken, smap: SourceMap, rest: Seq<Token>, ms: Seq<MsgV>) -> (Parsed<SynV>, Seq<Token>, Seq<MsgV>)
    decreases rest.len() + 1, 1nat,
{
    match e {
        ExpressionToken::Operator(op) => if !(op.bp is Unary || op.bp is BinaryOrUnary) {
            (Parsed::Error(error_msg(smap, "operator '"@ + op.tk@ + "' can not be used in a unary operation"@)), rest, ms)
        } else {
            let (r, rest2, ms2) = expr_spec(rest, 255, ms);
            match r {
                Parsed::Error(m) => (Parsed::Error(m), rest2, ms2),
                Parsed::Nothing => (Parsed::Error(error_msg(smap, "Expected expression after operator '"@ + op.tk@ + "'"@)), rest2, ms2),
                Parsed::Value(rhs) => (Parsed::Value(SynV {
                    data: ExprV::Unary(op, Box::new(rhs)),
                    smap: join(smap, rhs.smap),
                }), rest2, ms2),
            }
        },
        ExpressionToken::OpenParentheses => {
            let (r, rest2, ms2) = parens_spec(rest, false, ms);
            match r {
                Parsed::Error(m) => (Parsed::Error(m), rest2, ms2),
                Parsed::Nothing => (Parsed::Error(error_msg(smap, "Expected ')' to close this '('"@)), rest2, ms2),
                Parsed::Value((items, emap)) => if items.len() == 1 {
                    (Parsed::Value(items[0]), rest2, ms2)
                } else {
                    (Parsed::Value(SynV { data: ExprV::Tuple(items), smap: join(smap, emap) }), rest2, ms2)
                },
            }
        },
        ExpressionToken::OpenBracket => {
            let (r, rest2, ms2) = parens_spec(rest, true, ms);
            match r {
                Parsed::Error(m) => (Parsed::Error(m), rest2, ms2),
                Parsed::Nothing => (Parsed::Error(error_msg(smap, "Expected ']' to close this '['"@)), rest2, ms2),
                Parsed::Value((items, emap)) => (Parsed::Value(SynV { data: ExprV::Array(items), smap: join(smap, emap) }), rest2, ms2),
            }
        },
        ExpressionToken::LambdaKW => lambda_spec(smap, rest, ms),
        _ => match leaf_expr(e) {
            Some(x) => (Parsed::Value(SynV { data: x, smap }), rest, ms),
            None => (Parsed::Nothing, rest, ms),
        },
    }
}

/// Reading what follows the operand `lhs`: a name or number after it
/// multiplies; a binary operator binding at least `minbp` takes the next
/// operand; a parenthesised list calls `lhs`; a bracketed list of one
/// element indexes it; `.` and a name reads a member; `.<types>`, an
/// optional `.name` and a parenthesised list is a generic call; `as` and a
/// type casts. A closing parenthesis or bracket, an operator that binds
/// less, or any other token ends the expression.
pub open spec fn expr_rest(lhs: SynV, ts: Seq<Token>, minbp: u8, ms: Seq<MsgV>) -> (Parsed<SynV>, Seq<Token>, Seq<MsgV>)
    decreases ts.len(), 7nat,
{
    match peek_expr(ts) {
        None => (Parsed::Value(lhs), ts, ms),
        Some((e, emap)) => {
            let step = step_spec(lhs, e, emap, ts, minbp, ms);
            match step.0 {
                Parsed::Value(next) => if step.1.len() < ts.len() {
                    expr_rest(next, step.1, minbp, step.2)
                } else {
                    step
                },
                _ => step,
            }
        },
    }
}

/// One step after the operand `lhs`, whose next token is the expression
/// token `e` with the span `emap`: the operand grown by what follows it, or
/// `lhs` itself with the tokens untouched where the expression ends.
pub open spec fn step_spec(lhs: SynV, e: ExpressionToken, emap: SourceMap, ts: Seq<Token>, minbp: u8, ms: Seq<MsgV>) -> (Parsed<SynV>, Seq<Token>, Seq<MsgV>)
    decreases ts.len(), 6nat,
{
    match e {
        ExpressionToken::Identifier(_) | ExpressionToken::IntegerLiteral(_) | ExpressionToken::FloatLiteral(_) => juxtaposed_spec(lhs, emap, ts, minbp, ms),
        ExpressionToken::Operator(op) => operator_step_spec(lhs, op, emap, ts, minbp, ms),
        ExpressionToken::OpenParentheses => group_step_spec(lhs, false, emap, ts, ms),
        ExpressionToken::OpenBracket => group_step_spec(lhs, true, emap, ts, ms),
        ExpressionToken::Dot => dot_step_spec(lhs, emap, ts, ms),
        ExpressionToken::AsKW => cast_step_spec(lhs, emap, ts, ms),
        _ => (Parsed::Value(lhs), ts, ms),
    }
}

/// A name or number right after an operand multiplies it, when a
/// multiplication binds at least `minbp`.
pub open spec fn juxtaposed_spec(lhs: SynV, emap: SourceMap, ts: Seq<Token>, minbp: u8, ms: Seq<MsgV>) -> (Parsed<SynV>, Seq<Token>, Seq<MsgV>)
    decreases ts.len(), 5nat,
{
    if 18 < minbp {
        (Parsed::Value(lhs), ts, ms)
    } else {
        let (r, ts2, ms2) = expr_spec(ts, 17, ms);
        match r {
            Parsed::Value(rhs) => {
                let s = join(lhs.smap, rhs.smap);
                (Parsed::Value(SynV { data: ExprV::Binary(mul_op(), Box::new(restamp(lhs, s)), Box::new(rhs)), smap: s }), ts2, ms2)
            },
            Parsed::Nothing => (Parsed::Error(error_msg(emap, "expected expression"@)), ts2, ms2),
            Parsed::Error(m) => (Parsed::Error(m), ts2, ms2),
        }
    }
}

/// A binary operator binding at least `minbp`, and its right operand.
pub open spec fn operator_step_spec(lhs: SynV, op: Operator, emap: SourceMap, ts: Seq<Token>, minbp: u8, ms: Seq<MsgV>) -> (Parsed<SynV>, Seq<Token>, Seq<MsgV>)
    decreases ts.len(), 5nat,
{
    if ts.len() == 0 {
        (Parsed::Value(lhs), ts, ms)
    } else {
        let rest = tail(ts);
        if lbp(op.bp) < minbp {
            (Parsed::Value(lhs), ts, ms)
        } else if !(op.bp is Binary || op.bp is BinaryOrUnary) {
            (Parsed::Error(error_msg(emap, "operator "@ + op.tk@ + " cannot be used in binary operation"@)), rest, ms)
        } else {
            let (r, ts2, ms2) = expr_spec(rest, rbp(op.bp), ms);
            match r {
                Parsed::Value(rhs) => {
                    let s = join(join(lhs.smap, emap), rhs.smap);
                    (Parsed::Value(SynV { data: ExprV::Binary(op, Box::new(restamp(lhs, s)), Box::new(rhs)), smap: s }), ts2, ms2)
                },
                Parsed::Nothing => (Parsed::Error(error_msg(emap, "expected expression after operator '"@ + op.tk@ + "'"@)), ts2, ms2),
                Parsed::Error(m) => (Parsed::Error(m), ts2, ms2),
            }
        }
    }
}

/// A parenthesised list after an operand calls it; a bracketed list of one
/// element (when `bracket`) indexes it.
pub open spec fn group_step_spec(lhs: SynV, bracket: bool, emap: SourceMap, ts: Seq<Token>, ms: Seq<MsgV>) -> (Parsed<SynV>, Seq<Token>, Seq<MsgV>)
    decreases ts.len(), 5nat,
{
    let (r, ts2, ms2) = parens_spec(ts, bracket, ms);
    match r {
        Parsed::Value((items, emap2)) => if !bracket {
            let s = join(lhs.smap, emap2);
            (Parsed::Value(SynV { data: ExprV::Call(Box::new(restamp(lhs, s)), items), smap: s }), ts2, ms2)
        } else if items.len() != 1 {
            (Parsed::Error(error_msg(emap2, "Expected exactly 1 item in indexing operator!"@)), ts2, ms2)
        } else {
            (Parsed::Value(SynV { data: ExprV::Index(Box::new(lhs), Box::new(items[0])), smap: join(lhs.smap, emap2) }), ts2, ms2)
        },
        Parsed::Nothing => if bracket {
            (Parsed::Error(error_msg(emap, "expected ']' to close this index expression!"@)), ts2, ms2)
        } else {
            (Parsed::Error(error_msg(emap, "expected ')' to close this call expression!"@)), ts2, ms2)
        },
        Parsed::Error(m) => (Parsed::Error(m), ts2, ms2),
    }
}

/// `.` and a name reads a member; `.<types>`, an optional `.name` and a
/// parenthesised list is a generic call.
pub open spec fn dot_step_spec(lhs: SynV, emap: SourceMap, ts: Seq<Token>, ms: Seq<MsgV>) -> (Parsed<SynV>, Seq<Token>, Seq<MsgV>)
    decreases ts.len(), 5nat,
{
    if ts.len() == 0 {
        (Parsed::Value(lhs), ts, ms)
    } else {
        let rest = tail(ts);
        if next_is_op(rest, "<"@) {
            let (targs, r2, ms2) = type_list_spec(tail(rest), Seq::empty(), ms);
            let member: (Result<Option<String>, ()>, Seq<Token>) = if peek_expr(r2) matches Some((ExpressionToken::Dot, _)) {
                let r3 = tail(r2);
                match peek_expr(r3) {
                    Some((ExpressionToken::Identifier(name), _)) => (Ok(Some(name)), tail(r3)),
                    Some(_) => (Err(()), tail(r3)),
                    None => (Err(()), r3),
                }
            } else {
                (Ok(None), r2)
            };
            let r4 = member.1;
            match member.0 {
                Err(_) => (Parsed::Error(error_msg(emap, "expected method name after '.' in generic type call"@)), r4, ms2),
                Ok(mem) => if !(peek_expr(r4) matches Some((ExpressionToken::OpenParentheses, _))) {
                    (Parsed::Error(error_msg(emap, "expected '(' after generic type arguments in generic call"@)), r4, ms2)
                } else if r4.len() > ts.len() {
                    (Parsed::Value(lhs), r4, ms2)
                } else {
                    let (pr, r5, ms3) = parens_spec(r4, false, ms2);
                    match pr {
                        Parsed::Value((args, emap2)) => (Parsed::Value(SynV {
                            data: ExprV::GenericCall(Box::new(lhs), targs, mem, args),
                            smap: join(lhs.smap, emap2),
                        }), r5, ms3),
                        Parsed::Nothing => (Parsed::Error(error_msg(emap, "expected ')' to close generic call arguments"@)), r5, ms3),
                        Parsed::Error(m) => (Parsed::Error(m), r5, ms3),
                    }
                },
            }
        } else {
            match peek_expr(rest) {
                Some((ExpressionToken::Identifier(member), msmap)) => (Parsed::Value(SynV {
                    data: ExprV::Member(Box::new(lhs), member),
                    smap: join(lhs.smap, msmap),
                }), tail(rest), ms),
                Some(_) => (Parsed::Error(error_msg(emap, "expected member name after '.'"@)), tail(rest), ms),
                None => (Parsed::Error(error_msg(emap, "expected member name after '.'"@)), rest, ms),
            }
        }
    }
}

/// `as` and a type casts the operand.
pub open spec fn cast_step_spec(lhs: SynV, emap: SourceMap, ts: Seq<Token>, ms: Seq<MsgV>) -> (Parsed<SynV>, Seq<Token>, Seq<MsgV>)
    decreases ts.len(), 5nat,
{
    if ts.len() == 0 {
        (Parsed::Value(lhs), ts, ms)
    } else {
        let (t, r2, ms2) = type_spec(tail(ts), ms);
        match t {
            Some((ty, tsmap)) => (Parsed::Value(SynV { data: ExprV::Cast(Box::new(lhs), ty), smap: join(lhs.smap, tsmap) }), r2, ms2),
            None => (Parsed::Error(error_msg(emap, "expected type after `as`"@)), r2, ms2),
        }
    }
}

/// Reading a parenthesised (or, when `bracket`, bracketed) list of
/// expressions separated by commas: the expressions and the span from the
/// opening token to the closing one. The opening token is taken when it is
/// there; an expression token that is not one stays and starts the span.
pub open spec fn parens_spec(ts: Seq<Token>, bracket: bool, ms: Seq<MsgV>) -> (Parsed<(Seq<SynV>, SourceMap)>, Seq<Token>, Seq<MsgV>)
    decreases ts.len(), 4nat,
{
    match peek_expr(ts) {
        None => (Parsed::Nothing, ts, ms),
        Some((e, smap)) => {
            let ts1 = if is_open(e, bracket) { tail(ts) } else { ts };
            parens_items(ts1, bracket, smap, Seq::empty(), ms)
        },
    }
}

/// The rest of a list after the expressions `acc`, whose span is `smap`:
/// an expression, then the closing token, which ends the list, or a comma;
/// no expression ends the list too. Anything else is an error.
pub open spec fn parens_items(ts: Seq<Token>, bracket: bool, smap: SourceMap, acc: Seq<SynV>, ms: Seq<MsgV>) -> (Parsed<(Seq<SynV>, SourceMap)>, Seq<Token>, Seq<MsgV>)
    decreases ts.len(), 3nat,
{
    let (r, ts2, ms2) = expr_spec(ts, 0, ms);
    match r {
        Parsed::Nothing => (Parsed::Value((acc, smap)), ts2, ms2),
        Parsed::Error(m) => (Parsed::Error(m), ts2, ms2),
        Parsed::Value(x) => {
            let smap1 = join(smap, x.smap);
            let acc1 = acc.push(x);
            if next_closes(ts2, bracket) {
                (Parsed::Value((acc1, join(smap1, ts2[0].smap))), tail(ts2), ms2)
            } else if next_is_comma(ts2) {
                let smap2 = join(smap1, ts2[0].smap);
                if tail(ts2).len() < ts.len() {
                    parens_items(tail(ts2), bracket, smap2, acc1, ms2)
                } else {
                    (Parsed::Value((acc1, smap2)), tail(ts2), ms2)
                }
            } else if ts2.len() > 0 {
                (Parsed::Error(MsgV {
                    ty: CompileMessageType::Error,
                    source: ts2[0].smap,
                    text: "Expected '"@ + close_char(bracket) + "', got token: "@ + token_text(ts2[0].typ),
                    notes: seq![NoteV {
                        ty: CompileMessageType::Info,
                        source: smap1,
                        text: "Note: to end this expression starting with '"@ + open_char(bracket) + "'"@,
                    }],
                }), tail(ts2), ms2)
            } else {
                (Parsed::Error(error_msg(smap1, "Expected '"@ + close_char(bracket) + "' to end this expression"@)), ts2, ms2)
            }
        },
    }
}

/// Reading an expression as a whole: an error is added to the messages,
/// and gives no expression.
pub open spec fn expr_parse_spec(ts: Seq<Token>, ms: Seq<MsgV>) -> (Option<SynV>, Seq<Token>, Seq<MsgV>)
    decreases ts.len(), 3nat,
{
    let (r, ts2, ms2) = expr_spec(ts, 0, ms);
    match r {
        Parsed::Value(v) => (Some(v), ts2, ms2),
        Parsed::Nothing => (None, ts2, ms2),
        Parsed::Error(m) => (None, ts2, ms2.push(m)),
    }
}

/// Reading a type: a name, with a list of type parameters in `<` `>` when
/// one follows (see `type_list_spec`), then its modifiers (see
/// `mods_spec`). Without a name there is no type and nothing is taken.
pub open spec fn type_spec(ts: Seq<Token>, ms: Seq<MsgV>) -> (Option<(TypeV, SourceMap)>, Seq<Token>, Seq<MsgV>)
    decreases ts.len(), 2nat,
{
    match peek_expr(ts) {
        Some((ExpressionToken::Identifier(name), smap)) => {
            let rest = tail(ts);
            let (base, r2, ms2): (TypeV, Seq<Token>, Seq<MsgV>) = if next_is_op(rest, "<"@) {
                let (params, r2, ms2) = type_list_spec(tail(rest), Seq::empty(), ms);
                (TypeV::Generic(name, params), r2, ms2)
            } else {
                (TypeV::Typename(name), rest, ms)
            };
            if r2.len() < ts.len() {
                let (t, r3, ms3) = mods_spec((base, smap), r2, ms2);
                (Some(t), r3, ms3)
            } else {
                (Some((base, smap)), r2, ms2)
            }
        },
        _ => (None, ts, ms),
    }
}

/// The rest of a list of types after the types `acc`, up to and with a `>`:
/// a `>` ends it; else a type, then `>`, which ends it, or a comma. A
/// missing type, or anything else after a type, ends the list there.
pub open spec fn type_list_spec(ts: Seq<Token>, acc: Seq<TypeV>, ms: Seq<MsgV>) -> (Seq<TypeV>, Seq<Token>, Seq<MsgV>)
    decreases ts.len(), 3nat,
{
    if next_is_op(ts, ">"@) {
        (acc, tail(ts), ms)
    } else {
        let (t, ts2, ms2) = type_spec(ts, ms);
        match t {
            None => (acc, ts2, ms2),
            Some((p, _)) => {
                let acc1 = acc.push(p);
                if next_is_op(ts2, ">"@) {
                    (acc1, tail(ts2), ms2)
                } else if next_is_comma(ts2) && tail(ts2).len() < ts.len() {
                    type_list_spec(tail(ts2), acc1, ms2)
                } else if next_is_comma(ts2) {
                    (acc1, tail(ts2), ms2)
                } else {
                    (acc1, ts2, ms2)
                }
            },
        }
    }
}

/// The modifiers after a type, each applied to the type before it, until
/// one cannot be read (see `modifier_spec`).
pub open spec fn mods_spec(t: (TypeV, SourceMap), ts: Seq<Token>, ms: Seq<MsgV>) -> ((TypeV, SourceMap), Seq<Token>, Seq<MsgV>)
    decreases ts.len(), 4nat,
{
    let (ok, t2, ts2, ms2) = modifier_spec(t, ts, ms);
    if ok && ts2.len() < ts.len() {
        mods_spec(t2, ts2, ms2)
    } else {
        (t2, ts2, ms2)
    }
}

/// The parameter types of a function pointer type, after the types `acc`:
/// they end before a `)`, at a missing type, or after a type that no
/// comma follows.
pub open spec fn fn_params_spec(ts: Seq<Token>, acc: Seq<TypeV>, ms: Seq<MsgV>) -> (Seq<TypeV>, Seq<Token>, Seq<MsgV>)
    decreases ts.len(), 3nat,
{
    if peek_expr(ts) matches Some((ExpressionToken::CloseParentheses, _)) {
        (acc, ts, ms)
    } else {
        let (t, ts2, ms2) = type_spec(ts, ms);
        match t {
            None => (acc, ts2, ms2),
            Some((p, _)) => if next_is_comma(ts2) && tail(ts2).len() < ts.len() {
                fn_params_spec(tail(ts2), acc.push(p), ms2)
            } else if next_is_comma(ts2) {
                (acc.push(p), tail(ts2), ms2)
            } else {
                (acc.push(p), ts2, ms2)
            },
        }
    }
}

/// Reading one modifier after the type `t`, which applies to it: `*` makes
/// a pointer, `&` a reference, `[]` a slice, `[n]` an array of the constant
/// length `n` (see `const_len`), and a parenthesised list of types a
/// function pointer returning `t`. Whether a modifier was read, the type
/// (with its span grown over what was read), the tokens left and the
/// messages. A missing `]` or `)` is an error, and so is a length that is no
/// constant; the type then keeps the modifiers read so far.
pub open spec fn modifier_spec(t: (TypeV, SourceMap), ts: Seq<Token>, ms: Seq<MsgV>) -> (bool, (TypeV, SourceMap), Seq<Token>, Seq<MsgV>)
    decreases ts.len(), 3nat,
{
    let (data, smap) = t;
    match peek_expr(ts) {
        Some((ExpressionToken::Operator(op), s)) => if op.tk@ == "*"@ {
            (true, (TypeV::Pointer(Box::new(data)), join(smap, s)), tail(ts), ms)
        } else if op.tk@ == "&"@ {
            (true, (TypeV::Reference(Box::new(data)), join(smap, s)), tail(ts), ms)
        } else {
            (false, t, ts, ms)
        },
        Some((ExpressionToken::OpenBracket, s)) => bracket_mod_spec(t, s, tail(ts), ms),
        Some((ExpressionToken::OpenParentheses, s)) => fn_mod_spec(t, s, tail(ts), ms),
        _ => (false, t, ts, ms),
    }
}

/// `[]` or `[n]` after the type `t`; `s` is the span of the `[`, after
/// which `rest` follows.
pub open spec fn bracket_mod_spec(t: (TypeV, SourceMap), s: SourceMap, rest: Seq<Token>, ms: Seq<MsgV>) -> (bool, (TypeV, SourceMap), Seq<Token>, Seq<MsgV>)
    decreases rest.len() + 1, 1nat,
{
    let (data, smap) = t;
    let smap1 = join(smap, s);
    if peek_expr(rest) matches Some((ExpressionToken::CloseBracket, _)) {
        close_bracket_spec(TypeV::Slice(Box::new(data)), smap1, s, rest, ms)
    } else {
        let (x, r2, ms2) = expr_parse_spec(rest, ms);
        match x {
            None => close_bracket_spec(data, smap1, s, r2, ms2),
            Some(expr) => {
                let smap2 = join(smap1, expr.smap);
                match const_len(expr) {
                    Ok(v) => close_bracket_spec(TypeV::Array(Box::new(data), v as usize), smap2, s, r2, ms2),
                    Err(m) => (false, (data, smap2), r2, ms2.push(m)),
                }
            },
        }
    }
}

/// The `]` that ends a bracket modifier; without it the type `d` is kept
/// and an error names what came instead.
pub open spec fn close_bracket_spec(d: TypeV, sm: SourceMap, open: SourceMap, ts: Seq<Token>, ms: Seq<MsgV>) -> (bool, (TypeV, SourceMap), Seq<Token>, Seq<MsgV>) {
    let (next, r3) = pop_spec(ts);
    if next matches Some(tk) && tk.typ matches TokenType::Expression(ExpressionToken::CloseBracket) {
        (true, (d, join(sm, next->0.smap)), r3, ms)
    } else {
        (false, (d, sm), r3, ms.push(MsgV {
            ty: CompileMessageType::Error,
            source: sm,
            text: expected_text("']'"@, " after "@, "'['"@, found_text(next)),
            notes: seq![NoteV { ty: CompileMessageType::Info, source: open, text: "after this open bracket"@ }],
        }))
    }
}

/// A parenthesised list of parameter types after the type `t`; `s` is the
/// span of the `(`, after which `rest` follows.
pub open spec fn fn_mod_spec(t: (TypeV, SourceMap), s: SourceMap, rest: Seq<Token>, ms: Seq<MsgV>) -> (bool, (TypeV, SourceMap), Seq<Token>, Seq<MsgV>)
    decreases rest.len() + 1, 1nat,
{
    let (data, smap) = t;
    let smap1 = join(smap, s);
    let (params, r2, ms2) = fn_params_spec(rest, Seq::empty(), ms);
    let (close, r3) = pop_spec(r2);
    if close matches Some(tk) && tk.typ matches TokenType::Expression(ExpressionToken::CloseParentheses) {
        (true, (TypeV::FnPtr(Box::new(data), params), join(smap1, close->0.smap)), r3, ms2)
    } else {
        (false, (data, smap1), r3, ms2.push(MsgV {
            ty: CompileMessageType::Error,
            source: smap1,
            text: expected_text("')'"@, " after "@, "'('"@, found_text(close)),
            notes: Seq::empty(),
        }))
    }
}

/// Whether the first token is the feature token `f`.
pub open spec fn next_is_feature(ts: Seq<Token>, f: FeatureToken) -> bool {
    ts.len() > 0 && ts[0].typ == TokenType::Feature(f)
}

/// Whether the first token is the keyword `k`.
pub open spec fn next_is_keyword(ts: Seq<Token>, k: StatementToken) -> bool {
    ts.len() > 0 && ts[0].typ == TokenType::Statement(k)
}

/// Whether the first token is the expression token `e`.
pub open spec fn next_is_expr(ts: Seq<Token>, e: ExpressionToken) -> bool {
    ts.len() > 0 && ts[0].typ == TokenType::Expression(e)
}

/// Whether a token taken, if any, is a comma.
pub open spec fn taken_is_comma(t: Option<Token>) -> bool {
    t matches Some(tk) && tk.typ == TokenType::Feature(FeatureToken::Comma)
}

/// Whether a token taken, if any, is the expression token `e`.
pub open spec fn taken_is(t: Option<Token>, e: ExpressionToken) -> bool {
    t matches Some(tk) && tk.typ == TokenType::Expression(e)
}

/// Reading a variable declaration `[public] name : type [= value]`. The
/// keyword `public` is taken even when no declaration follows it. A missing
/// type, or a missing value after `=`, is an error, and gives none.
pub open spec fn vardecl_spec(ts: Seq<Token>, ms: Seq<MsgV>) -> (Option<VarDeclV>, Seq<Token>, Seq<MsgV>)
    decreases ts.len(), 4nat,
{
    let public = next_is_keyword(ts, StatementToken::PublicKW);
    let t1 = if public { tail(ts) } else { ts };
    if !(t1.len() > 1 && (t1[0].typ matches TokenType::Expression(ExpressionToken::Identifier(_)))
        && t1[1].typ == TokenType::Feature(FeatureToken::Colon)) {
        (None, t1, ms)
    } else {
        let name = t1[0].typ->Expression_0->Identifier_0;
        let smap = if public { join(ts[0].smap, t1[0].smap) } else { t1[0].smap };
        let t2 = tail(tail(t1));
        let (ty, t3, ms3) = type_spec(t2, ms);
        match ty {
            None => (None, t3, ms3.push(error_msg(smap, "expected type after variable declaration: \""@ + name@ + "\""@))),
            Some((tyv, tsmap)) => {
                let smap1 = join(smap, tsmap);
                if next_is_op(t3, "="@) && t3.len() <= ts.len() {
                    let opmap = t3[0].smap;
                    let (x, t4, ms4) = expr_parse_spec(tail(t3), ms3);
                    match x {
                        None => (None, t4, ms4.push(error_msg(join(smap1, opmap), "expected expression after '='"@))),
                        Some(v) => (Some(VarDeclV { name, ty: tyv, value: Some(v), public, smap: join(smap1, v.smap) }), t4, ms4),
                    }
                } else {
                    (Some(VarDeclV { name, ty: tyv, value: None, public, smap: smap1 }), t3, ms3)
                }
            },
        }
    }
}

/// Reading a statement of a block: a variable declaration, else an
/// expression; with its span.
pub open spec fn statement_spec(ts: Seq<Token>, ms: Seq<MsgV>) -> (Option<(StatementV, SourceMap)>, Seq<Token>, Seq<MsgV>)
    decreases ts.len(), 5nat,
{
    let (v, t1, ms1) = vardecl_spec(ts, ms);
    match v {
        Some(d) => (Some((StatementV::VariableDeclaration(d.name, d.ty, d.value, d.public), d.smap)), t1, ms1),
        None => if t1.len() <= ts.len() {
            let (x, t2, ms2) = expr_parse_spec(t1, ms1);
            match x {
                Some(e) => (Some((StatementV::Expression(e.data), e.smap)), t2, ms2),
                None => (None, t2, ms2),
            }
        } else {
            (None, t1, ms1)
        },
    }
}

/// Reading a block `{ statements }`: statements, with `;` between them
/// skipped. A token that starts no statement, or the end of the tokens
/// before `}`, is an error. Without `{` there is no block.
pub open spec fn block_spec(ts: Seq<Token>, ms: Seq<MsgV>) -> (Parsed<(Seq<StatementV>, SourceMap)>, Seq<Token>, Seq<MsgV>)
    decreases ts.len(), 0nat,
{
    if next_is_feature(ts, FeatureToken::OpenBrace) {
        block_items(tail(ts), ts[0].smap, ts[0].smap, Seq::empty(), ms)
    } else {
        (Parsed::Nothing, ts, ms)
    }
}

/// The rest of a block opened at `open`, after the statements `acc`,
/// whose span is `smap`.
pub open spec fn block_items(ts: Seq<Token>, open: SourceMap, smap: SourceMap, acc: Seq<StatementV>, ms: Seq<MsgV>) -> (Parsed<(Seq<StatementV>, SourceMap)>, Seq<Token>, Seq<MsgV>)
    decreases ts.len(), 6nat,
{
    if next_is_feature(ts, FeatureToken::CloseBrace) {
        (Parsed::Value((acc, smap)), tail(ts), ms)
    } else if next_is_feature(ts, FeatureToken::StatementEnd) {
        block_items(tail(ts), open, smap, acc, ms)
    } else {
        let (st, t2, ms2) = statement_spec(ts, ms);
        match st {
            Some((x, ssmap)) => if t2.len() < ts.len() {
                block_items(t2, open, join(smap, ssmap), acc.push(x), ms2)
            } else {
                (Parsed::Value((acc.push(x), join(smap, ssmap))), t2, ms2)
            },
            None => if t2.len() > 0 {
                (Parsed::Error(MsgV {
                    ty: CompileMessageType::Error,
                    source: t2[0].smap,
                    text: "didnt expect token: "@ + token_text(t2[0].typ),
                    notes: seq![NoteV { ty: CompileMessageType::Info, source: t2[0].smap, text: "expected statement"@ }],
                }), tail(t2), ms2)
            } else {
                (Parsed::Error(error_msg(open, "unclosed '}'"@)), t2, ms2)
            },
        }
    }
}

/// Reading a block as a whole: an error is added to the messages, and
/// gives no block.
pub open spec fn block_parse_spec(ts: Seq<Token>, ms: Seq<MsgV>) -> (Option<(Seq<StatementV>, SourceMap)>, Seq<Token>, Seq<MsgV>)
    decreases ts.len(), 1nat,
{
    let (r, t2, ms2) = block_spec(ts, ms);
    match r {
        Parsed::Value(b) => (Some(b), t2, ms2),
        Parsed::Nothing => (None, t2, ms2),
        Parsed::Error(m) => (None, t2, ms2.push(m)),
    }
}

/// `lambda(params...) = RetType { body }` after the keyword, whose span is
/// `smap`: a missing `(`, separator, `)` or body is an error about the
/// keyword and gives nothing.
pub open spec fn lambda_spec(smap: SourceMap, rest: Seq<Token>, ms: Seq<MsgV>) -> (Parsed<SynV>, Seq<Token>, Seq<MsgV>)
    decreases rest.len() + 1, 0nat,
{
    if !next_is_expr(rest, ExpressionToken::OpenParentheses) {
        (Parsed::Nothing, rest, ms.push(error_msg(smap, "expected '(' after 'lambda'"@)))
    } else {
        let (ps, closed, t2, ms2) = lambda_params(tail(rest), Seq::empty(), ms);
        match closed {
            None => (Parsed::Nothing, t2, ms2.push(error_msg(smap, "expected ',' or ')' in lambda parameter list"@))),
            Some(c) => {
                let (ok, t3) = if c {
                    (true, t2)
                } else if next_is_expr(t2, ExpressionToken::CloseParentheses) {
                    (true, tail(t2))
                } else {
                    (false, t2)
                };
                if !ok {
                    (Parsed::Nothing, t3, ms2.push(error_msg(smap, "expected ')' after lambda parameter list"@)))
                } else if t3.len() > rest.len() {
                    (Parsed::Nothing, t3, ms2)
                } else {
                    let (ret, t4, ms4): (Option<TypeV>, Seq<Token>, Seq<MsgV>) = if next_is_op(t3, "="@) {
                        let (ty, t4, ms4) = type_spec(tail(t3), ms2);
                        (match ty {
                            Some((tv, _)) => Some(tv),
                            None => None,
                        }, t4, ms4)
                    } else {
                        (None, t3, ms2)
                    };
                    if t4.len() >= rest.len() {
                        (Parsed::Nothing, t4, ms4)
                    } else {
                        let (body, t5, ms5) = block_parse_spec(t4, ms4);
                        match body {
                            None => (Parsed::Nothing, t5, ms5.push(error_msg(smap, "expected '{' for lambda body"@))),
                            Some((stmts, bsmap)) => (Parsed::Value(SynV { data: ExprV::Lambda(ps, ret, stmts, bsmap), smap }), t5, ms5),
                        }
                    }
                }
            },
        }
    }
}

/// The parameters of a lambda after the ones read, `acc`: whether the list
/// was closed by `)` (`None` when a token other than `,` or `)` follows a
/// parameter, which is taken).
pub open spec fn lambda_params(ts: Seq<Token>, acc: Seq<VarDeclV>, ms: Seq<MsgV>) -> (Seq<VarDeclV>, Option<bool>, Seq<Token>, Seq<MsgV>)
    decreases ts.len(), 5nat,
{
    let (v, t1, ms1) = vardecl_spec(ts, ms);
    match v {
        None => (acc, Some(false), t1, ms1),
        Some(d) => {
            let (next, t2) = pop_spec(t1);
            if taken_is_comma(next) {
                if t2.len() < ts.len() {
                    lambda_params(t2, acc.push(d), ms1)
                } else {
                    (acc.push(d), Some(false), t2, ms1)
                }
            } else if taken_is(next, ExpressionToken::CloseParentheses) {
                (acc.push(d), Some(true), t2, ms1)
            } else {
                (acc.push(d), None, t2, ms1)
            }
        },
    }
}

} // verus!

verus! {

/// Type modifiers apply in the order they are written, each to the type
/// read before it: after a type `t`, a `*` makes a pointer to `t`, a `&` a
/// reference to `t` and `[]` a slice of `t`, and the modifiers after it
/// apply to that type in turn.
pub proof fn law_modifiers_wrap(t: TypeV, smap: SourceMap, ts: Seq<Token>, ms: Seq<MsgV>)
    requires
        ts.len() > 0,
    ensures
        next_is_op(ts, "*"@) ==> mods_spec((t, smap), ts, ms)
            == mods_spec((TypeV::Pointer(Box::new(t)), join(smap, ts[0].smap)), tail(ts), ms),
        next_is_op(ts, "&"@) ==> mods_spec((t, smap), ts, ms)
            == mods_spec((TypeV::Reference(Box::new(t)), join(smap, ts[0].smap)), tail(ts), ms),
        next_is_expr(ts, ExpressionToken::OpenBracket) && ts.len() > 1 && next_is_expr(tail(ts), ExpressionToken::CloseBracket)
            ==> mods_spec((t, smap), ts, ms) == mods_spec(
                (TypeV::Slice(Box::new(t)), join(join(smap, ts[0].smap), ts[1].smap)),
                tail(tail(ts)),
                ms,
            ),
{
    reveal_strlit("*");
    reveal_strlit("&");
    assert("*"@[0] != "&"@[0]);
    assert("*"@ != "&"@);
    let (ok, t2, ts2, ms2) = modifier_spec((t, smap), ts, ms);
    if next_is_op(ts, "*"@) || next_is_op(ts, "&"@) {
        assert(ok && ts2 == tail(ts) && ts2.len() < ts.len());
    }
    if next_is_expr(ts, ExpressionToken::OpenBracket) && ts.len() > 1 && next_is_expr(tail(ts), ExpressionToken::CloseBracket) {
        assert(tail(ts)[0] == ts[1]);
        assert(bracket_mod_spec((t, smap), ts[0].smap, tail(ts), ms)
            == close_bracket_spec(TypeV::Slice(Box::new(t)), join(smap, ts[0].smap), ts[0].smap, tail(ts), ms));
    }
}

} // verus!
