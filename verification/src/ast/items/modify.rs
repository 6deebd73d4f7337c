use vstd::prelude::*;
use crate::ast::GenericSyntax;
use crate::ast::grammar::{
    block_parse_spec, next_is_feature, next_is_keyword, pop_spec, taken_is, taken_is_comma, type_spec, vardecl_spec,
};
use crate::ast::items::function::{expected_msg, expected_error, take_front, taken_kind};
use crate::ast::parse::{opt_block_view, opt_vardecl_view};
use crate::ast::statements::expressions::{
    BlockSyntax, StatementV, VarDeclSyntax, VarDeclV, lemma_vardecls_view_push, vardecls_view,
};
use crate::ast::token::{
    ExpressionToken, FeatureToken, StatementToken, Token, TokenType, front_is_comma, front_is_op, next_is_comma,
    next_is_op, pop_front, tail,
};
use crate::ast::ty::{Type, TypeSyntax, TypeV, lemma_type_text, type_view, typev_text};
use crate::common::sourcemap::{SourceMap, join};
use crate::common::utils::labels::str_eq;
use crate::compiler::compile_message::{
    CompileMessage, MsgV, NoteV, emit, error_msg, expected_text, msg_view, msgs_view,
};
use crate::compiler::CompileMessageType;

verus! {

/// How a method takes its receiver.
#[derive(Clone, Copy, PartialEq, Eq, Structural, Debug)]
pub enum SelfMode {
    /// No receiver: a static method.
    NoSelf,
    /// The receiver by value.
    Value,
    /// The receiver by reference.
    ByRef,
}

impl SelfMode {
    pub fn has_self(&self) -> (r: bool)
        ensures
            r == !(*self is NoSelf),
    {
        match self {
            SelfMode::NoSelf => false,
            _ => true,
        }
    }
}

/// A method of a modify block.
pub struct MethodDecl {
    pub name: String,
    pub self_mode: SelfMode,
    pub params: Vec<VarDeclSyntax>,
    pub ret: Option<Type>,
    pub body: Option<BlockSyntax>,
    pub public: bool,
}

/// An operator of a modify block, such as `add` or `cmp`.
pub struct OperatorDecl {
    pub op_name: String,
    pub self_mode: SelfMode,
    pub params: Vec<VarDeclSyntax>,
    pub ret: Option<Type>,
    pub body: Option<BlockSyntax>,
}

/// `modify<T, ...> Type { methods and operators }`.
pub struct ModifyBlock {
    pub type_parameters: Vec<String>,
    pub ty: Type,
    pub methods: Vec<MethodDecl>,
    pub operators: Vec<OperatorDecl>,
}

pub type ModifySyntax = GenericSyntax<ModifyBlock>;

pub struct MethodV {
    pub name: String,
    pub self_mode: SelfMode,
    pub params: Seq<VarDeclV>,
    pub ret: Option<TypeV>,
    pub body: Option<(Seq<StatementV>, SourceMap)>,
    pub public: bool,
}

pub struct OperatorV {
    pub op_name: String,
    pub self_mode: SelfMode,
    pub params: Seq<VarDeclV>,
    pub ret: Option<TypeV>,
    pub body: Option<(Seq<StatementV>, SourceMap)>,
}

/// A modify block with its span, as plain values.
pub struct ModifyV {
    pub type_parameters: Seq<String>,
    pub ty: TypeV,
    pub methods: Seq<MethodV>,
    pub operators: Seq<OperatorV>,
    pub smap: SourceMap,
}

pub open spec fn opt_typev(t: Option<Type>) -> Option<TypeV> {
    match t {
        Some(x) => Some(type_view(x)),
        None => None,
    }
}

pub open spec fn method_view(m: MethodDecl) -> MethodV {
    MethodV {
        name: m.name,
        self_mode: m.self_mode,
        params: vardecls_view(m.params@),
        ret: opt_typev(m.ret),
        body: opt_block_view(m.body),
        public: m.public,
    }
}

pub open spec fn operator_view(o: OperatorDecl) -> OperatorV {
    OperatorV {
        op_name: o.op_name,
        self_mode: o.self_mode,
        params: vardecls_view(o.params@),
        ret: opt_typev(o.ret),
        body: opt_block_view(o.body),
    }
}

pub open spec fn methods_view(ms: Seq<MethodDecl>) -> Seq<MethodV> {
    ms.map_values(|m: MethodDecl| method_view(m))
}

pub open spec fn operators_view(os: Seq<OperatorDecl>) -> Seq<OperatorV> {
    os.map_values(|o: OperatorDecl| operator_view(o))
}

pub open spec fn modify_view(m: ModifySyntax) -> ModifyV {
    ModifyV {
        type_parameters: m.data.type_parameters@,
        ty: type_view(m.data.ty),
        methods: methods_view(m.data.methods@),
        operators: operators_view(m.data.operators@),
        smap: m.smap,
    }
}

pub open spec fn opt_modify_view(m: Option<ModifySyntax>) -> Option<ModifyV> {
    match m {
        Some(x) => Some(modify_view(x)),
        None => None,
    }
}

/// The names of type parameters after the ones read, `acc`, up to and with
/// a `>`; a token other than a name is taken and is an error about `smap`,
/// which ends the list.
pub open spec fn tparams_spec(ts: Seq<Token>, smap: SourceMap, acc: Seq<String>, after: Seq<char>, ms: Seq<MsgV>) -> (Seq<String>, Seq<Token>, Seq<MsgV>)
    decreases ts.len(),
{
    if next_is_op(ts, ">"@) {
        (acc, tail(ts), ms)
    } else {
        let (next, t1) = pop_spec(ts);
        match next {
            Some(Token { typ: TokenType::Expression(ExpressionToken::Identifier(tp)), smap: _ }) => {
                let acc1 = acc.push(tp);
                if next_is_op(t1, ">"@) {
                    (acc1, tail(t1), ms)
                } else if next_is_comma(t1) && tail(t1).len() < ts.len() {
                    tparams_spec(tail(t1), smap, acc1, after, ms)
                } else if next_is_comma(t1) {
                    (acc1, tail(t1), ms)
                } else {
                    (acc1, t1, ms)
                }
            },
            _ => (acc, t1, ms.push(expected_msg(smap, "type parameter name"@, after, next))),
        }
    }
}

/// The tokens after any `;` at the front.
pub open spec fn skip_ends(ts: Seq<Token>) -> Seq<Token>
    decreases ts.len(),
{
    if next_is_feature(ts, FeatureToken::StatementEnd) {
        skip_ends(tail(ts))
    } else {
        ts
    }
}

/// Whether the first token is the name `self`.
pub open spec fn next_is_self(ts: Seq<Token>) -> bool {
    ts.len() > 0 && (ts[0].typ matches TokenType::Expression(ExpressionToken::Identifier(s)) && s@ == "self"@)
}

/// A receiver at the front of a parameter list: `self&` by reference,
/// `self` by value, either with the comma after it; else none.
pub open spec fn self_spec(ts: Seq<Token>) -> (SelfMode, Seq<Token>) {
    if next_is_self(ts) {
        let t1 = tail(ts);
        let (mode, t2) = if next_is_op(t1, "&"@) { (SelfMode::ByRef, tail(t1)) } else { (SelfMode::Value, t1) };
        (mode, if next_is_comma(t2) { tail(t2) } else { t2 })
    } else {
        (SelfMode::NoSelf, ts)
    }
}

/// The parameters after the ones read, `acc`: declarations each followed by
/// `,` or by `)`, which ends them (whether it did comes back). Any other
/// token after one is taken and is an error about `src`, which ends them.
/// For methods (`methods`), a declaration with a value is an error.
pub open spec fn decl_params_spec(ts: Seq<Token>, acc: Seq<VarDeclV>, methods: bool, src: SourceMap, after: Seq<char>, ms: Seq<MsgV>) -> (Seq<VarDeclV>, bool, Seq<Token>, Seq<MsgV>)
    decreases ts.len(),
{
    let (v, t1, ms1) = vardecl_spec(ts, ms);
    match v {
        None => (acc, false, t1, ms1),
        Some(d) => {
            let ms2 = if methods && d.value is Some {
                ms1.push(error_msg(d.smap, "default parameter values are not allowed in methods"@))
            } else {
                ms1
            };
            let (next, t2) = pop_spec(t1);
            if taken_is_comma(next) {
                if t2.len() < ts.len() {
                    decl_params_spec(t2, acc.push(d), methods, src, after, ms2)
                } else {
                    (acc.push(d), false, t2, ms2)
                }
            } else if taken_is(next, ExpressionToken::CloseParentheses) {
                (acc.push(d), true, t2, ms2)
            } else {
                (acc.push(d), false, t2, ms2.push(expected_msg(src, "')'"@, after, next)))
            }
        },
    }
}

/// The `)` after parameters not ended by one; without it, an error.
pub open spec fn close_spec(ended: bool, ts: Seq<Token>, src: SourceMap, after: Seq<char>, ms: Seq<MsgV>) -> (Seq<Token>, Seq<MsgV>) {
    if ended {
        (ts, ms)
    } else {
        let (n, t1) = pop_spec(ts);
        (t1, if taken_is(n, ExpressionToken::CloseParentheses) { ms } else { ms.push(expected_msg(src, "')'"@, after, n)) })
    }
}

/// An optional `= type`.
pub open spec fn ret_spec(ts: Seq<Token>, ms: Seq<MsgV>) -> (Option<TypeV>, Seq<Token>, Seq<MsgV>) {
    if next_is_op(ts, "="@) {
        let (t, t1, ms1) = type_spec(tail(ts), ms);
        (match t {
            Some((tv, _)) => Some(tv),
            None => None,
        }, t1, ms1)
    } else {
        (None, ts, ms)
    }
}

/// An operator of a modify block, from the keyword `operator` on: its
/// name, `(`, an optional receiver, parameters, `)`, an optional return
/// type and a body. A missing name or `(` is an error and skips it; a
/// missing `)` or body is an error too.
pub open spec fn operator_member_spec(ts: Seq<Token>, smap: SourceMap, public: bool, meths: Seq<MethodV>, ops: Seq<OperatorV>, ms: Seq<MsgV>)
    -> (Seq<MethodV>, Seq<OperatorV>, SourceMap, Seq<Token>, Seq<MsgV>)
{
    let ms1 = if public {
        ms.push(MsgV {
            ty: CompileMessageType::Warning,
            source: smap,
            text: "operators are always public; 'public' keyword is redundant here"@,
            notes: Seq::empty(),
        })
    } else {
        ms
    };
    let (next, t2) = pop_spec(tail(ts));
    match next {
        Some(Token { typ: TokenType::Expression(ExpressionToken::Identifier(name)), smap: opsmap }) => {
            let after = "operator '"@ + name@ + "'"@;
            let (n2, t3) = pop_spec(t2);
            if !taken_is(n2, ExpressionToken::OpenParentheses) {
                (meths, ops, smap, t3, ms1.push(expected_msg(opsmap, "'('"@, after, n2)))
            } else {
                let (mode, t4) = self_spec(t3);
                let (params, ended, t5, ms5) = decl_params_spec(t4, Seq::empty(), false, opsmap, after, ms1);
                let (t6, ms6) = close_spec(ended, t5, opsmap, after, ms5);
                let (ret, t7, ms7) = ret_spec(t6, ms6);
                let (body, t8, ms8) = block_parse_spec(t7, ms7);
                let ms9 = if body is None {
                    ms8.push(error_msg(opsmap, "expected '{' to begin body of operator '"@ + name@ + "'"@))
                } else {
                    ms8
                };
                (meths, ops.push(OperatorV { op_name: name, self_mode: mode, params, ret, body }), join(smap, opsmap), t8, ms9)
            }
        },
        _ => (meths, ops, smap, t2, ms1.push(expected_msg(smap, "operator name"@, "operator declaration"@, next))),
    }
}

/// A method of a modify block, after `fn`: its name, `(`, an optional
/// receiver, parameters, `)`, an optional return type and a body. A missing
/// name or `(` is an error and skips it; a missing `)` or body is an error
/// too.
pub open spec fn method_member_spec(ts: Seq<Token>, smap: SourceMap, public: bool, psmap: Option<SourceMap>, meths: Seq<MethodV>, ops: Seq<OperatorV>, ms: Seq<MsgV>)
    -> (Seq<MethodV>, Seq<OperatorV>, SourceMap, Seq<Token>, Seq<MsgV>)
{
    let (next, t1) = pop_spec(ts);
    match next {
        Some(Token { typ: TokenType::Expression(ExpressionToken::Identifier(name)), smap: imap }) => {
            let msmap = match psmap {
                Some(p) => join(p, imap),
                None => imap,
            };
            let (n2, t2) = pop_spec(t1);
            if !taken_is(n2, ExpressionToken::OpenParentheses) {
                (meths, ops, smap, t2, ms.push(expected_msg(msmap, "('"@, "method '"@ + name@ + "'"@, n2)))
            } else {
                let after = "method '"@ + name@ + "' parameters"@;
                let (mode, t3) = self_spec(t2);
                let (params, ended, t4, ms4) = decl_params_spec(t3, Seq::empty(), true, msmap, after, ms);
                let (t5, ms5) = close_spec(ended, t4, msmap, after, ms4);
                let (ret, t6, ms6) = ret_spec(t5, ms5);
                let (body, t7, ms7) = block_parse_spec(t6, ms6);
                let ms8 = if body is None {
                    ms7.push(error_msg(msmap, "expected '{' to begin body of method '"@ + name@ + "'"@))
                } else {
                    ms7
                };
                let s1 = match body {
                    Some((_, bs)) => join(smap, bs),
                    None => smap,
                };
                (meths.push(MethodV { name, self_mode: mode, params, ret, body, public }), ops, join(s1, msmap), t7, ms8)
            }
        },
        _ => (meths, ops, smap, t1, ms.push(expected_msg(smap, "method name"@, "modify block"@, next))),
    }
}

/// The members of a modify block after the ones read, up to and with `}`:
/// `;` are skipped; each member is `[public] fn` and a method or an
/// operator. A missing `fn` is an error and gives no block; the end of the
/// tokens is an error and ends the block.
pub open spec fn members_spec(ts: Seq<Token>, smap: SourceMap, meths: Seq<MethodV>, ops: Seq<OperatorV>, ms: Seq<MsgV>)
    -> (Option<(Seq<MethodV>, Seq<OperatorV>, SourceMap)>, Seq<Token>, Seq<MsgV>)
    decreases ts.len(),
{
    let t1 = skip_ends(ts);
    if next_is_feature(t1, FeatureToken::CloseBrace) {
        (Some((meths, ops, join(smap, t1[0].smap))), tail(t1), ms)
    } else if t1.len() == 0 {
        (Some((meths, ops, smap)), t1, ms.push(error_msg(smap, "expected '}' to close modify block"@)))
    } else {
        let public = next_is_keyword(t1, StatementToken::PublicKW);
        let psmap = if public { Some(t1[0].smap) } else { None };
        let t2 = if public { tail(t1) } else { t1 };
        let (next, t3) = pop_spec(t2);
        if !(next matches Some(tk) && tk.typ == TokenType::Statement(StatementToken::FnKW)) {
            (None, t3, ms.push(MsgV {
                ty: CompileMessageType::Error,
                source: smap,
                text: expected_text("fn keyword"@, " in "@, "modify block declaration"@, crate::ast::grammar::found_text(next)),
                notes: Seq::empty(),
            }))
        } else {
            let smap1 = join(smap, next->0.smap);
            let (m2, o2, s2, t4, ms4) = if next_is_keyword(t3, StatementToken::OperatorKW) {
                operator_member_spec(t3, smap1, public, meths, ops, ms)
            } else {
                method_member_spec(t3, smap1, public, psmap, meths, ops, ms)
            };
            if t4.len() < ts.len() {
                members_spec(t4, s2, m2, o2, ms4)
            } else {
                (Some((m2, o2, s2)), t4, ms4)
            }
        }
    }
}

/// Reading a modify block `modify [<names>] Type { members }`: without the
/// keyword there is none and nothing is taken. A missing type or `{` is an
/// error and gives none (see `members_spec` for the members).
pub open spec fn modify_spec(ts: Seq<Token>, ms: Seq<MsgV>) -> (Option<ModifyV>, Seq<Token>, Seq<MsgV>) {
    if !next_is_keyword(ts, StatementToken::ModifyKW) {
        (None, ts, ms)
    } else {
        let smap = ts[0].smap;
        let t1 = tail(ts);
        let (tps, t2, ms2) = if next_is_op(t1, "<"@) {
            tparams_spec(tail(t1), smap, Seq::empty(), "generic modify declaration"@, ms)
        } else {
            (Seq::empty(), t1, ms)
        };
        let (ty, t3, ms3) = type_spec(t2, ms2);
        match ty {
            None => (None, t3, ms3.push(error_msg(smap, "expected type after 'modify'"@))),
            Some((tv, tsm)) => modify_body_spec(tps, tv, join(smap, tsm), t3, ms3),
        }
    }
}

/// The `{ members }` of a modify block of the type `tv`, whose span so far
/// is `smap`.
pub open spec fn modify_body_spec(tps: Seq<String>, tv: TypeV, smap: SourceMap, ts: Seq<Token>, ms: Seq<MsgV>) -> (Option<ModifyV>, Seq<Token>, Seq<MsgV>) {
    let (next, t4) = pop_spec(ts);
    if !(next matches Some(tk) && tk.typ == TokenType::Feature(FeatureToken::OpenBrace)) {
        (None, t4, ms.push(expected_msg(smap, "{"@, "modify "@ + typev_text(tv), next)))
    } else {
        let (r, t5, ms5) = members_spec(t4, join(smap, next->0.smap), Seq::empty(), Seq::empty(), ms);
        match r {
            None => (None, t5, ms5),
            Some((meths, ops, s)) => (Some(ModifyV { type_parameters: tps, ty: tv, methods: meths, operators: ops, smap: s }), t5, ms5),
        }
    }
}

pub(crate) fn front_kind(tokens: &Vec<Token>) -> (k: u8)
    ensures
        k == 1 <==> next_is_op(tokens@, ">"@),
        k == 2 <==> next_is_feature(tokens@, FeatureToken::StatementEnd),
        k == 3 <==> next_is_feature(tokens@, FeatureToken::CloseBrace),
        k == 4 <==> next_is_keyword(tokens@, StatementToken::PublicKW),
        k == 5 <==> next_is_keyword(tokens@, StatementToken::OperatorKW),
        k == 6 <==> next_is_self(tokens@),
        k == 7 <==> next_is_keyword(tokens@, StatementToken::ModifyKW),
{
    if tokens.len() == 0 {
        return 0;
    }
    match &tokens[0].typ {
        TokenType::Expression(ExpressionToken::Operator(op)) => if str_eq(op.tk, ">") { 1 } else { 0 },
        TokenType::Feature(FeatureToken::StatementEnd) => 2,
        TokenType::Feature(FeatureToken::CloseBrace) => 3,
        TokenType::Statement(StatementToken::PublicKW) => 4,
        TokenType::Statement(StatementToken::OperatorKW) => 5,
        TokenType::Expression(ExpressionToken::Identifier(s)) => if str_eq(s.as_str(), "self") { 6 } else { 0 },
        TokenType::Statement(StatementToken::ModifyKW) => 7,
        _ => 0,
    }
}

/// Reads type parameter names (see `tparams_spec`).
pub(crate) fn tparams(tokens: &mut Vec<Token>, smap: &SourceMap, acc: Vec<String>, after: &str, msgs: &mut Vec<CompileMessage>) -> (r: Vec<String>)
    ensures
        (r@, final(tokens)@, msgs_view(final(msgs)@)) == tparams_spec(old(tokens)@, *smap, acc@, after@, msgs_view(old(msgs)@)),
    decreases old(tokens)@.len(),
{
    let len0 = tokens.len();
    if front_kind(tokens) == 1 {
        let _ = pop_front(tokens);
        return acc;
    }
    let next = take_front(tokens);
    match next {
        Some(Token { typ: TokenType::Expression(ExpressionToken::Identifier(tp)), smap: _ }) => {
            let mut acc1 = acc;
            acc1.push(tp);
            if front_kind(tokens) == 1 {
                let _ = pop_front(tokens);
                acc1
            } else if front_is_comma(tokens) {
                let _ = pop_front(tokens);
                if tokens.len() < len0 {
                    tparams(tokens, smap, acc1, after, msgs)
                } else {
                    acc1
                }
            } else {
                acc1
            }
        },
        _ => {
            emit(msgs, expected_error(smap.duplicate(), "type parameter name", after, &next));
            acc
        },
    }
}

fn skip_statement_ends(tokens: &mut Vec<Token>)
    ensures
        final(tokens)@ == skip_ends(old(tokens)@),
    decreases old(tokens)@.len(),
{
    if front_kind(tokens) == 2 {
        let _ = pop_front(tokens);
        skip_statement_ends(tokens);
    }
}

fn read_self(tokens: &mut Vec<Token>) -> (r: SelfMode)
    ensures
        (r, final(tokens)@) == self_spec(old(tokens)@),
{
    if front_kind(tokens) != 6 {
        return SelfMode::NoSelf;
    }
    let _ = pop_front(tokens);
    let mode = if front_is_op(tokens, "&") {
        let _ = pop_front(tokens);
        SelfMode::ByRef
    } else {
        SelfMode::Value
    };
    if front_is_comma(tokens) {
        let _ = pop_front(tokens);
    }
    mode
}

/// Reads parameters (see `decl_params_spec`).
fn decl_params(tokens: &mut Vec<Token>, acc: Vec<VarDeclSyntax>, methods: bool, src: &SourceMap, after: &str, msgs: &mut Vec<CompileMessage>)
    -> (r: (Vec<VarDeclSyntax>, bool))
    ensures
        (vardecls_view(r.0@), r.1, final(tokens)@, msgs_view(final(msgs)@))
            == decl_params_spec(old(tokens)@, vardecls_view(acc@), methods, *src, after@, msgs_view(old(msgs)@)),
    decreases old(tokens)@.len(),
{
    let len0 = tokens.len();
    let d = match VarDeclSyntax::parse(tokens, msgs) {
        None => return (acc, false),
        Some(d) => d,
    };
    if methods && d.data.value.is_some() {
        let m = CompileMessage::new(d.smap.duplicate(), String::from_str("default parameter values are not allowed in methods"), CompileMessageType::Error);
        assert(msg_view(m).notes =~= Seq::<NoteV>::empty());
        emit(msgs, m);
    }
    let mut acc1 = acc;
    proof {
        lemma_vardecls_view_push(acc1@, d);
    }
    acc1.push(d);
    let next = take_front(tokens);
    let k = taken_kind(&next);
    if k == 2 {
        if tokens.len() < len0 {
            decl_params(tokens, acc1, methods, src, after, msgs)
        } else {
            (acc1, false)
        }
    } else if k == 1 {
        (acc1, true)
    } else {
        emit(msgs, expected_error(src.duplicate(), "')'", after, &next));
        (acc1, false)
    }
}

fn close_params(ended: bool, tokens: &mut Vec<Token>, src: &SourceMap, after: &str, msgs: &mut Vec<CompileMessage>)
    ensures
        (final(tokens)@, msgs_view(final(msgs)@)) == close_spec(ended, old(tokens)@, *src, after@, msgs_view(old(msgs)@)),
{
    if !ended {
        let n = take_front(tokens);
        if taken_kind(&n) != 1 {
            emit(msgs, expected_error(src.duplicate(), "')'", after, &n));
        }
    }
}

fn read_ret(tokens: &mut Vec<Token>, msgs: &mut Vec<CompileMessage>) -> (r: Option<Type>)
    ensures
        (opt_typev(r), final(tokens)@, msgs_view(final(msgs)@)) == ret_spec(old(tokens)@, msgs_view(old(msgs)@)),
{
    if front_is_op(tokens, "=") {
        let _ = pop_front(tokens);
        match TypeSyntax::parse(tokens, msgs) {
            Some(t) => Some(t.data),
            None => None,
        }
    } else {
        None
    }
}

fn with_name(a: &str, name: &String, b: &str) -> (r: String)
    ensures
        r@ == a@ + name@ + b@,
{
    let mut s = String::from_str(a);
    s.append(name.as_str());
    s.append(b);
    s
}

/// Reads an operator of a modify block (see `operator_member_spec`).
#[verifier::rlimit(60)]
#[verifier::spinoff_prover]
fn operator_member(tokens: &mut Vec<Token>, smap: SourceMap, public: bool, meths: Vec<MethodDecl>, ops: Vec<OperatorDecl>, msgs: &mut Vec<CompileMessage>)
    -> (r: (Vec<MethodDecl>, Vec<OperatorDecl>, SourceMap))
    requires
        old(tokens)@.len() > 0,
    ensures
        (methods_view(r.0@), operators_view(r.1@), r.2, final(tokens)@, msgs_view(final(msgs)@))
            == operator_member_spec(old(tokens)@, smap, public, methods_view(meths@), operators_view(ops@), msgs_view(old(msgs)@)),
{
    if public {
        let m = CompileMessage::new(smap.duplicate(), String::from_str("operators are always public; 'public' keyword is redundant here"), CompileMessageType::Warning);
        assert(msg_view(m).notes =~= Seq::<NoteV>::empty());
        emit(msgs, m);
    }
    let _ = pop_front(tokens);
    let next = take_front(tokens);
    let (name, opsmap) = match next {
        Some(Token { typ: TokenType::Expression(ExpressionToken::Identifier(name)), smap: opsmap }) => (name, opsmap),
        _ => {
            emit(msgs, expected_error(smap.duplicate(), "operator name", "operator declaration", &next));
            return (meths, ops, smap);
        },
    };
    let after = with_name("operator '", &name, "'");
    let n2 = take_front(tokens);
    if taken_kind(&n2) != 3 {
        emit(msgs, expected_error(opsmap, "'('", after.as_str(), &n2));
        return (meths, ops, smap);
    }
    let mode = read_self(tokens);
    let acc: Vec<VarDeclSyntax> = Vec::new();
    assert(vardecls_view(acc@) =~= Seq::<VarDeclV>::empty());
    let (params, ended) = decl_params(tokens, acc, false, &opsmap, after.as_str(), msgs);
    close_params(ended, tokens, &opsmap, after.as_str(), msgs);
    let ret = read_ret(tokens, msgs);
    let body = BlockSyntax::parse(tokens, msgs);
    if body.is_none() {
        emit(msgs, crate::ast::parse::err_at(opsmap.duplicate(), with_name("expected '{' to begin body of operator '", &name, "'")));
    }
    let mut s = smap;
    s.join_with(&opsmap);
    let mut ops1 = ops;
    let o = OperatorDecl { op_name: name, self_mode: mode, params, ret, body };
    assert(operators_view(ops1@.push(o)) =~= operators_view(ops1@).push(operator_view(o)));
    ops1.push(o);
    (meths, ops1, s)
}

/// Reads a method of a modify block (see `method_member_spec`).
#[verifier::rlimit(60)]
#[verifier::spinoff_prover]
fn method_member(tokens: &mut Vec<Token>, smap: SourceMap, public: bool, psmap: Option<SourceMap>, meths: Vec<MethodDecl>, ops: Vec<OperatorDecl>, msgs: &mut Vec<CompileMessage>)
    -> (r: (Vec<MethodDecl>, Vec<OperatorDecl>, SourceMap))
    ensures
        (methods_view(r.0@), operators_view(r.1@), r.2, final(tokens)@, msgs_view(final(msgs)@))
            == method_member_spec(old(tokens)@, smap, public, psmap, methods_view(meths@), operators_view(ops@), msgs_view(old(msgs)@)),
{
    let next = take_front(tokens);
    let (name, imap) = match next {
        Some(Token { typ: TokenType::Expression(ExpressionToken::Identifier(name)), smap: imap }) => (name, imap),
        _ => {
            emit(msgs, expected_error(smap.duplicate(), "method name", "modify block", &next));
            return (meths, ops, smap);
        },
    };
    let msmap = match psmap {
        Some(p) => {
            let mut p = p;
            p.join_with(&imap);
            p
        },
        None => imap,
    };
    let n2 = take_front(tokens);
    if taken_kind(&n2) != 3 {
        emit(msgs, expected_error(msmap, "('", with_name("method '", &name, "'").as_str(), &n2));
        return (meths, ops, smap);
    }
    let after = with_name("method '", &name, "' parameters");
    let mode = read_self(tokens);
    let acc: Vec<VarDeclSyntax> = Vec::new();
    assert(vardecls_view(acc@) =~= Seq::<VarDeclV>::empty());
    let (params, ended) = decl_params(tokens, acc, true, &msmap, after.as_str(), msgs);
    close_params(ended, tokens, &msmap, after.as_str(), msgs);
    let ret = read_ret(tokens, msgs);
    let body = BlockSyntax::parse(tokens, msgs);
    if body.is_none() {
        emit(msgs, crate::ast::parse::err_at(msmap.duplicate(), with_name("expected '{' to begin body of method '", &name, "'")));
    }
    let mut s = smap;
    match &body {
        Some(b) => s.join_with(&b.smap),
        None => {},
    }
    s.join_with(&msmap);
    let mut meths1 = meths;
    let m = MethodDecl { name, self_mode: mode, params, ret, body, public };
    assert(methods_view(meths1@.push(m)) =~= methods_view(meths1@).push(method_view(m)));
    meths1.push(m);
    (meths1, ops, s)
}

/// Reads the members of a modify block (see `members_spec`).
fn members(tokens: &mut Vec<Token>, smap: SourceMap, meths: Vec<MethodDecl>, ops: Vec<OperatorDecl>, msgs: &mut Vec<CompileMessage>)
    -> (r: Option<(Vec<MethodDecl>, Vec<OperatorDecl>, SourceMap)>)
    ensures
        (match r {
            Some((m, o, s)) => Some((methods_view(m@), operators_view(o@), s)),
            None => None,
        }, final(tokens)@, msgs_view(final(msgs)@)) == members_spec(old(tokens)@, smap, methods_view(meths@), operators_view(ops@), msgs_view(old(msgs)@)),
    decreases old(tokens)@.len(),
{
    let len0 = tokens.len();
    skip_statement_ends(tokens);
    if front_kind(tokens) == 3 {
        let t = pop_front(tokens);
        let mut s = smap;
        s.join_with(&t.smap);
        return Some((meths, ops, s));
    }
    if tokens.len() == 0 {
        emit(msgs, crate::ast::parse::err_at(smap.duplicate(), String::from_str("expected '}' to close modify block")));
        return Some((meths, ops, smap));
    }
    let public = front_kind(tokens) == 4;
    let psmap = if public { Some(pop_front(tokens).smap) } else { None };
    let next = take_front(tokens);
    let is_fn = match &next {
        Some(tk) => match &tk.typ {
            TokenType::Statement(StatementToken::FnKW) => true,
            _ => false,
        },
        None => false,
    };
    if !is_fn {
        let d = match &next {
            Some(tk) => Some(crate::ast::parse::describe_token(&tk.typ)),
            None => None,
        };
        let found = match &d {
            Some(x) => Some(x.as_str()),
            None => None,
        };
        let m = CompileMessage::expected_token_in_error(smap, "fn keyword", "modify block declaration", found);
        assert(msg_view(m).notes =~= Seq::<NoteV>::empty());
        emit(msgs, m);
        return None;
    }
    let mut smap1 = smap;
    match &next {
        Some(tk) => smap1.join_with(&tk.smap),
        None => {},
    }
    let (m2, o2, s2) = if front_kind(tokens) == 5 {
        operator_member(tokens, smap1, public, meths, ops, msgs)
    } else {
        method_member(tokens, smap1, public, psmap, meths, ops, msgs)
    };
    if tokens.len() < len0 {
        members(tokens, s2, m2, o2, msgs)
    } else {
        Some((m2, o2, s2))
    }
}

impl GenericSyntax<ModifyBlock> {
    /// Reads a modify block (see `modify_spec`).
    pub fn parse(tokens: &mut Vec<Token>, msgs: &mut Vec<CompileMessage>) -> (r: Option<ModifySyntax>)
        ensures
            (opt_modify_view(r), final(tokens)@, msgs_view(final(msgs)@)) == modify_spec(old(tokens)@, msgs_view(old(msgs)@)),
    {
        if front_kind(tokens) != 7 {
            return None;
        }
        let smap = pop_front(tokens).smap;
        let type_parameters: Vec<String> = if front_is_op(tokens, "<") {
            let _ = pop_front(tokens);
            let acc: Vec<String> = Vec::new();
            assert(acc@ =~= Seq::<String>::empty());
            tparams(tokens, &smap, acc, "generic modify declaration", msgs)
        } else {
            let acc: Vec<String> = Vec::new();
            assert(acc@ =~= Seq::<String>::empty());
            acc
        };
        let ty = match TypeSyntax::parse(tokens, msgs) {
            Some(t) => t,
            None => {
                emit(msgs, crate::ast::parse::err_at(smap, String::from_str("expected type after 'modify'")));
                return None;
            },
        };
        let mut smap1 = smap;
        smap1.join_with(&ty.smap);
        Self::parse_body(type_parameters, ty.data, smap1, tokens, msgs)
    }

    /// The `{ members }` of a modify block (see `modify_body_spec`).
    fn parse_body(type_parameters: Vec<String>, ty: Type, smap1: SourceMap, tokens: &mut Vec<Token>, msgs: &mut Vec<CompileMessage>) -> (r: Option<ModifySyntax>)
        ensures
            (opt_modify_view(r), final(tokens)@, msgs_view(final(msgs)@)) == modify_body_spec(type_parameters@, type_view(ty), smap1, old(tokens)@, msgs_view(old(msgs)@)),
    {
        let mut smap1 = smap1;
        let next = take_front(tokens);
        let is_brace = match &next {
            Some(tk) => match &tk.typ {
                TokenType::Feature(FeatureToken::OpenBrace) => true,
                _ => false,
            },
            None => false,
        };
        if !is_brace {
            proof {
                lemma_type_text(ty);
            }
            let mut after = String::from_str("modify ");
            let d = ty.describe();
            after.append(d.as_str());
            emit(msgs, expected_error(smap1, "{", after.as_str(), &next));
            return None;
        }
        match &next {
            Some(tk) => smap1.join_with(&tk.smap),
            None => {},
        }
        let m0: Vec<MethodDecl> = Vec::new();
        let o0: Vec<OperatorDecl> = Vec::new();
        assert(methods_view(m0@) =~= Seq::<MethodV>::empty());
        assert(operators_view(o0@) =~= Seq::<OperatorV>::empty());
        match members(tokens, smap1, m0, o0, msgs) {
            None => None,
            Some((methods, operators, s)) => Some(GenericSyntax { data: ModifyBlock { type_parameters, ty, methods, operators }, smap: s }),
        }
    }
}

} // verus!
