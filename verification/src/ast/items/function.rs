use vstd::prelude::*;
use crate::ast::GenericSyntax;
use crate::ast::grammar::{
    block_parse_spec, found_text, next_is_keyword, pop_spec, taken_is, taken_is_comma, type_spec, vardecl_spec,
};
use crate::ast::parse::{describe_token, opt_block_view, opt_vardecl_view, tsyn_view};
use crate::ast::statements::expressions::{
    BlockSyntax, StatementV, VarDeclSyntax, VarDeclV, lemma_vardecls_view_push, vardecl_view, vardecls_view,
};
use crate::ast::token::{ExpressionToken, StatementToken, Token, TokenType, front_is_op, next_is_op, pop_front, tail};
use crate::ast::ty::{Type, TypeSyntax, TypeV, type_view};
use crate::common::sourcemap::{SourceMap, join};
use crate::compiler::compile_message::{
    CompileMessage, MsgV, NoteV, emit, error_msg, expected_text, msg_view, msgs_view,
};
use crate::compiler::CompileMessageType;

verus! {

/// A function: its name, parameters, body (none for a declaration) and
/// return type (none for no value).
pub struct Function {
    pub name: String,
    pub parameters: Vec<VarDeclSyntax>,
    pub body: Option<BlockSyntax>,
    pub ty: Option<Type>,
    /// Whether it follows the C calling convention (with a body) or is
    /// defined in a file linked in.
    pub is_extern: bool,
}

pub type FunctionSyntax = GenericSyntax<Function>;

/// A function with its span, as plain values.
pub struct FunctionV {
    pub name: String,
    pub parameters: Seq<VarDeclV>,
    pub body: Option<(Seq<StatementV>, SourceMap)>,
    pub ty: Option<TypeV>,
    pub is_extern: bool,
    pub smap: SourceMap,
}

pub open spec fn function_view(f: FunctionSyntax) -> FunctionV {
    FunctionV {
        name: f.data.name,
        parameters: vardecls_view(f.data.parameters@),
        body: opt_block_view(f.data.body),
        ty: match f.data.ty {
            Some(t) => Some(type_view(t)),
            None => None,
        },
        is_extern: f.data.is_extern,
        smap: f.smap,
    }
}

pub open spec fn opt_function_view(f: Option<FunctionSyntax>) -> Option<FunctionV> {
    match f {
        Some(x) => Some(function_view(x)),
        None => None,
    }
}

/// An error that `what` was expected after `after`, naming the token taken
/// instead.
pub open spec fn expected_msg(source: SourceMap, what: Seq<char>, after: Seq<char>, next: Option<Token>) -> MsgV {
    MsgV { ty: CompileMessageType::Error, source, text: expected_text(what, " after "@, after, found_text(next)), notes: Seq::empty() }
}

/// The parameters of a function after the ones read, `acc`: each is a
/// variable declaration without a value (one with a value is an error),
/// followed by `,` or by `)`, which ends the list; any other token after a
/// parameter is an error and the list goes on. What comes back: the
/// parameters, whether `)` ended them, the span grown over them, the span of
/// the last one, the tokens left and the messages.
pub open spec fn fn_args_spec(ts: Seq<Token>, smap: SourceMap, last: SourceMap, acc: Seq<VarDeclV>, ms: Seq<MsgV>)
    -> (Seq<VarDeclV>, bool, SourceMap, SourceMap, Seq<Token>, Seq<MsgV>)
    decreases ts.len(),
{
    let (v, t1, ms1) = vardecl_spec(ts, ms);
    match v {
        None => (acc, false, smap, last, t1, ms1),
        Some(d) => {
            let ms2 = if d.value is Some {
                ms1.push(error_msg(d.smap, "default values for function arguments are not allowed!"@))
            } else {
                ms1
            };
            let smap1 = join(smap, d.smap);
            let (next, t2) = pop_spec(t1);
            if taken_is(next, ExpressionToken::CloseParentheses) {
                (acc.push(d), true, join(smap1, next->0.smap), d.smap, t2, ms2)
            } else {
                let (s2, ms3) = if taken_is_comma(next) {
                    (join(smap1, next->0.smap), ms2)
                } else {
                    (smap1, ms2.push(expected_msg(d.smap, "')'"@, "function parameter"@, next)))
                };
                if t2.len() < ts.len() {
                    fn_args_spec(t2, s2, d.smap, acc.push(d), ms3)
                } else {
                    (acc.push(d), false, s2, d.smap, t2, ms3)
                }
            }
        },
    }
}

/// Reading a function `[extern] fn name(params) [= type] [block]`. Without
/// `fn` (after an optional `extern`) there is none and nothing is taken. A
/// missing name, `(` or `)` is an error and gives none; a missing body gives
/// a declaration.
pub open spec fn function_spec(ts: Seq<Token>, ms: Seq<MsgV>) -> (Option<FunctionV>, Seq<Token>, Seq<MsgV>) {
    let is_extern = next_is_keyword(ts, StatementToken::ExternKW);
    let t0 = if is_extern { tail(ts) } else { ts };
    if !next_is_keyword(t0, StatementToken::FnKW) {
        (None, ts, ms)
    } else {
        let smap = if is_extern { join(ts[0].smap, t0[0].smap) } else { t0[0].smap };
        let (next, t2) = pop_spec(tail(t0));
        match next {
            Some(Token { typ: TokenType::Expression(ExpressionToken::Identifier(name)), smap: imap }) => {
                let smap1 = join(smap, imap);
                let (n2, t3) = pop_spec(t2);
                if !taken_is(n2, ExpressionToken::OpenParentheses) {
                    (None, t3, ms.push(expected_msg(smap1, "'('"@, "function declaration: "@ + name@, n2)))
                } else {
                    let (args, ended, smap2, last, t4, ms4) = fn_args_spec(t3, join(smap1, n2->0.smap), n2->0.smap, Seq::empty(), ms);
                    let (n3, t5) = pop_spec(t4);
                    if !ended && !taken_is(n3, ExpressionToken::CloseParentheses) {
                        (None, t5, ms4.push(expected_msg(last, "')'"@, "'('"@, n3)))
                    } else {
                        let (smap3, t6) = if ended { (smap2, t4) } else { (join(smap2, n3->0.smap), t5) };
                        function_rest(name, args, is_extern, smap3, t6, ms4)
                    }
                }
            },
            _ => (None, t2, ms.push(expected_msg(smap, "identifier"@, "'fn' keyword"@, next))),
        }
    }
}

/// The optional `= type` and the optional body of a function.
pub open spec fn function_rest(name: String, args: Seq<VarDeclV>, is_extern: bool, smap: SourceMap, ts: Seq<Token>, ms: Seq<MsgV>)
    -> (Option<FunctionV>, Seq<Token>, Seq<MsgV>)
{
    let (ty, smap1, t1, ms1): (Option<TypeV>, SourceMap, Seq<Token>, Seq<MsgV>) = if next_is_op(ts, "="@) {
        let (t, t1, ms1) = type_spec(tail(ts), ms);
        match t {
            Some((tv, tsmap)) => (Some(tv), join(smap, tsmap), t1, ms1),
            None => (None, smap, t1, ms1),
        }
    } else {
        (None, smap, ts, ms)
    };
    let (body, t2, ms2) = block_parse_spec(t1, ms1);
    let smap2 = match body {
        Some((_, bsmap)) => join(smap1, bsmap),
        None => smap1,
    };
    (Some(FunctionV { name, parameters: args, body, ty, is_extern, smap: smap2 }), t2, ms2)
}

pub(crate) fn take_front(tokens: &mut Vec<Token>) -> (r: Option<Token>)
    ensures
        (r, final(tokens)@) == pop_spec(old(tokens)@),
{
    if tokens.len() > 0 {
        Some(pop_front(tokens))
    } else {
        None
    }
}

pub(crate) fn taken_kind(t: &Option<Token>) -> (k: u8)
    ensures
        k == 1 <==> taken_is(*t, ExpressionToken::CloseParentheses),
        k == 2 <==> taken_is_comma(*t),
        k == 3 <==> taken_is(*t, ExpressionToken::OpenParentheses),
{
    match t {
        Some(tk) => match &tk.typ {
            TokenType::Expression(ExpressionToken::CloseParentheses) => 1,
            TokenType::Feature(crate::ast::token::FeatureToken::Comma) => 2,
            TokenType::Expression(ExpressionToken::OpenParentheses) => 3,
            _ => 0,
        },
        None => 0,
    }
}

/// An "expected" error naming the token taken instead.
pub(crate) fn expected_error(source: SourceMap, what: &str, after: &str, next: &Option<Token>) -> (m: CompileMessage)
    ensures
        msg_view(m) == expected_msg(source, what@, after@, *next),
{
    let d = match next {
        Some(tk) => Some(describe_token(&tk.typ)),
        None => None,
    };
    let found = match &d {
        Some(x) => Some(x.as_str()),
        None => None,
    };
    let m = CompileMessage::expected_token_error(source, what, after, found);
    assert(msg_view(m).notes =~= Seq::<NoteV>::empty());
    m
}

fn keyword_kind(tokens: &Vec<Token>, at: usize) -> (k: u8)
    requires
        at < 2,
    ensures
        k == 1 <==> next_is_keyword(tokens@.subrange(at as int, tokens@.len() as int), StatementToken::ExternKW) && at < tokens@.len(),
        k == 2 <==> next_is_keyword(tokens@.subrange(at as int, tokens@.len() as int), StatementToken::FnKW) && at < tokens@.len(),
{
    if at >= tokens.len() {
        return 0;
    }
    match &tokens[at].typ {
        TokenType::Statement(StatementToken::ExternKW) => 1,
        TokenType::Statement(StatementToken::FnKW) => 2,
        _ => 0,
    }
}

/// Reads the parameters of a function (see `fn_args_spec`).
fn fn_args(tokens: &mut Vec<Token>, smap: SourceMap, last: SourceMap, acc: Vec<VarDeclSyntax>, msgs: &mut Vec<CompileMessage>)
    -> (r: (Vec<VarDeclSyntax>, bool, SourceMap, SourceMap))
    ensures
        (vardecls_view(r.0@), r.1, r.2, r.3, final(tokens)@, msgs_view(final(msgs)@))
            == fn_args_spec(old(tokens)@, smap, last, vardecls_view(acc@), msgs_view(old(msgs)@)),
    decreases old(tokens)@.len(),
{
    let len0 = tokens.len();
    let d = match VarDeclSyntax::parse(tokens, msgs) {
        None => return (acc, false, smap, last),
        Some(d) => d,
    };
    if d.data.value.is_some() {
        emit(msgs, CompileMessage::new(d.smap.duplicate(), String::from_str("default values for function arguments are not allowed!"), CompileMessageType::Error));
        proof {
            assert(msgs_view(msgs@).last().notes =~= Seq::<NoteV>::empty());
        }
    }
    let mut smap1 = smap;
    smap1.join_with(&d.smap);
    let dsmap = d.smap.duplicate();
    let mut acc1 = acc;
    proof {
        lemma_vardecls_view_push(acc1@, d);
    }
    acc1.push(d);
    let next = take_front(tokens);
    let k = taken_kind(&next);
    if k == 1 {
        match next {
            Some(tk) => smap1.join_with(&tk.smap),
            None => {},
        }
        return (acc1, true, smap1, dsmap);
    }
    if k == 2 {
        match &next {
            Some(tk) => smap1.join_with(&tk.smap),
            None => {},
        }
    } else {
        emit(msgs, expected_error(dsmap.duplicate(), "')'", "function parameter", &next));
    }
    if tokens.len() < len0 {
        fn_args(tokens, smap1, dsmap, acc1, msgs)
    } else {
        (acc1, false, smap1, dsmap)
    }
}

impl GenericSyntax<Function> {
    /// Reads a function (see `function_spec`).
    pub fn parse(tokens: &mut Vec<Token>, msgs: &mut Vec<CompileMessage>) -> (r: Option<FunctionSyntax>)
        ensures
            (opt_function_view(r), final(tokens)@, msgs_view(final(msgs)@)) == function_spec(old(tokens)@, msgs_view(old(msgs)@)),
    {
        proof {
            assert(old(tokens)@.subrange(0, old(tokens)@.len() as int) =~= old(tokens)@);
            if old(tokens)@.len() > 0 {
                assert(old(tokens)@.subrange(1, old(tokens)@.len() as int) =~= tail(old(tokens)@));
            }
        }
        let is_extern = keyword_kind(tokens, 0) == 1;
        let ind: usize = if is_extern { 1 } else { 0 };
        if keyword_kind(tokens, ind) != 2 {
            return None;
        }
        let mut smap = if is_extern {
            let e = pop_front(tokens);
            let f = pop_front(tokens);
            let mut s = e.smap;
            s.join_with(&f.smap);
            s
        } else {
            pop_front(tokens).smap
        };
        let next = take_front(tokens);
        let name = match next {
            Some(Token { typ: TokenType::Expression(ExpressionToken::Identifier(s)), smap: imap }) => {
                smap.join_with(&imap);
                s
            },
            _ => {
                emit(msgs, expected_error(smap, "identifier", "'fn' keyword", &next));
                return None;
            },
        };
        let n2 = take_front(tokens);
        if taken_kind(&n2) != 3 {
            let mut after = String::from_str("function declaration: ");
            after.append(name.as_str());
            emit(msgs, expected_error(smap, "'('", after.as_str(), &n2));
            return None;
        }
        let open = match n2 {
            Some(tk) => tk.smap,
            None => {
                proof {
                    assert(false);
                }
                return None;
            },
        };
        smap.join_with(&open);
        let acc: Vec<VarDeclSyntax> = Vec::new();
        assert(vardecls_view(acc@) =~= Seq::<VarDeclV>::empty());
        let (args, ended, smap2, last) = fn_args(tokens, smap, open, acc, msgs);
        let mut smap3 = smap2;
        if !ended {
            let n3 = take_front(tokens);
            if taken_kind(&n3) != 1 {
                emit(msgs, expected_error(last, "')'", "'('", &n3));
                return None;
            }
            match n3 {
                Some(tk) => smap3.join_with(&tk.smap),
                None => {},
            }
        }
        Some(Self::parse_rest(name, args, is_extern, smap3, tokens, msgs))
    }

    /// The optional `= type` and body of a function (see `function_rest`).
    fn parse_rest(name: String, args: Vec<VarDeclSyntax>, is_extern: bool, smap: SourceMap, tokens: &mut Vec<Token>, msgs: &mut Vec<CompileMessage>)
        -> (r: FunctionSyntax)
        ensures
            (Some(function_view(r)), final(tokens)@, msgs_view(final(msgs)@))
                == function_rest(name, vardecls_view(args@), is_extern, smap, old(tokens)@, msgs_view(old(msgs)@)),
    {
        let mut smap1 = smap;
        let ty = if front_is_op(tokens, "=") {
            let _ = pop_front(tokens);
            match TypeSyntax::parse(tokens, msgs) {
                Some(t) => {
                    smap1.join_with(&t.smap);
                    Some(t.data)
                },
                None => None,
            }
        } else {
            None
        };
        let body = BlockSyntax::parse(tokens, msgs);
        match &body {
            Some(b) => smap1.join_with(&b.smap),
            None => {},
        }
        GenericSyntax { data: Function { name, parameters: args, body, ty, is_extern }, smap: smap1 }
    }
}

} // verus!
