use vstd::prelude::*;
use crate::ast::GenericSyntax;
use crate::ast::grammar::{next_is_feature, next_is_keyword, pop_spec, token_text, vardecl_spec};
use crate::ast::items::function::{FunctionSyntax, FunctionV, expected_error, expected_msg, function_spec, function_view, take_front};
use crate::ast::items::modify::{front_kind, tparams, tparams_spec};
use crate::ast::parse::{describe_token, err_at};
use crate::ast::statements::expressions::{SynV, VarDecl, VarDeclSyntax, opt_expr_view};
use crate::ast::token::{
    ExpressionToken, FeatureToken, StatementToken, Token, TokenType, front_is_comma, front_is_op, next_is_comma,
    next_is_op, pop_front, tail,
};
use crate::ast::ty::{TypeV, lemma_type_text, type_view, typev_text};
use crate::common::sourcemap::{SourceMap, join};
use crate::compiler::compile_message::{CompileMessage, MsgV, NoteV, emit, error_msg, msg_view, msgs_view};
use crate::compiler::CompileMessageType;

verus! {

/// A structure: its name, type parameters and members.
pub struct Structure {
    pub name: String,
    pub type_parameters: Vec<String>,
    pub members: Vec<VarDecl>,
}

pub type StructureSyntax = GenericSyntax<Structure>;

/// A member of a structure, as plain values.
pub struct MemberV {
    pub name: String,
    pub ty: TypeV,
    pub value: Option<SynV>,
    pub public: bool,
}

/// A structure with its span, as plain values.
pub struct StructV {
    pub name: String,
    pub type_parameters: Seq<String>,
    pub members: Seq<MemberV>,
    pub smap: SourceMap,
}

pub open spec fn member_view(v: VarDecl) -> MemberV {
    MemberV { name: v.name, ty: type_view(v.ty), value: opt_expr_view(v.value), public: v.public }
}

pub open spec fn members_view(vs: Seq<VarDecl>) -> Seq<MemberV> {
    vs.map_values(|v: VarDecl| member_view(v))
}

pub open spec fn struct_view(s: StructureSyntax) -> StructV {
    StructV {
        name: s.data.name,
        type_parameters: s.data.type_parameters@,
        members: members_view(s.data.members@),
        smap: s.smap,
    }
}

pub open spec fn opt_struct_view(s: Option<StructureSyntax>) -> Option<StructV> {
    match s {
        Some(x) => Some(struct_view(x)),
        None => None,
    }
}

/// The tokens after any commas at the front.
pub open spec fn skip_commas(ts: Seq<Token>) -> Seq<Token>
    decreases ts.len(),
{
    if next_is_comma(ts) {
        skip_commas(tail(ts))
    } else {
        ts
    }
}

/// The members of a structure after the ones read, `acc`: declarations,
/// each followed by one or more commas; a missing comma is an error naming
/// the token taken in its place. The span grows over each member.
pub open spec fn struct_members_spec(ts: Seq<Token>, smap: SourceMap, acc: Seq<MemberV>, ms: Seq<MsgV>) -> (Seq<MemberV>, SourceMap, Seq<Token>, Seq<MsgV>)
    decreases ts.len(),
{
    let (v, t1, ms1) = vardecl_spec(ts, ms);
    match v {
        None => (acc, smap, t1, ms1),
        Some(d) => {
            let (t2, ms2) = if next_is_comma(t1) {
                (skip_commas(t1), ms1)
            } else {
                let (n, t2) = pop_spec(t1);
                (t2, ms1.push(expected_msg(d.smap, ","@, "struct member declaration "@ + d.name@ + ": "@ + typev_text(d.ty), n)))
            };
            let m = MemberV { name: d.name, ty: d.ty, value: d.value, public: d.public };
            if t2.len() < ts.len() {
                struct_members_spec(t2, join(smap, d.smap), acc.push(m), ms2)
            } else {
                (acc.push(m), join(smap, d.smap), t2, ms2)
            }
        },
    }
}

/// Reading a structure `struct [<names>] Name { members }`: without the
/// keyword there is none and nothing is taken; a missing name, `{` or `}` is
/// an error and gives none.
pub open spec fn struct_spec(ts: Seq<Token>, ms: Seq<MsgV>) -> (Option<StructV>, Seq<Token>, Seq<MsgV>) {
    if !next_is_keyword(ts, StatementToken::StructKW) {
        (None, ts, ms)
    } else {
        let smap = ts[0].smap;
        let t1 = tail(ts);
        let (tps, t2, ms2) = if next_is_op(t1, "<"@) {
            tparams_spec(tail(t1), smap, Seq::empty(), "generic struct declaration"@, ms)
        } else {
            (Seq::empty(), t1, ms)
        };
        let (next, t3) = pop_spec(t2);
        match next {
            Some(Token { typ: TokenType::Expression(ExpressionToken::Identifier(name)), smap: imap }) => {
                let smap1 = join(smap, imap);
                let (n2, t4) = pop_spec(t3);
                if !(n2 matches Some(tk) && tk.typ == TokenType::Feature(FeatureToken::OpenBrace)) {
                    (None, t4, ms2.push(expected_msg(smap1, "{"@, "struct '"@ + name@ + "' declaration"@, n2)))
                } else {
                    let (members, smap3, t5, ms5) = struct_members_spec(t4, join(smap1, n2->0.smap), Seq::empty(), ms2);
                    let (n3, t6) = pop_spec(t5);
                    if !(n3 matches Some(tk) && tk.typ == TokenType::Feature(FeatureToken::CloseBrace)) {
                        (None, t6, ms5.push(expected_msg(smap3, "}"@, "struct members declaration in struct: "@ + name@, n3)))
                    } else {
                        (Some(StructV { name, type_parameters: tps, members, smap: join(smap3, n3->0.smap) }), t6, ms5)
                    }
                }
            },
            _ => (None, t3, ms2.push(expected_msg(smap, "identifier"@, "'struct' keyword"@, next))),
        }
    }
}

fn skip_comma_tokens(tokens: &mut Vec<Token>)
    ensures
        final(tokens)@ == skip_commas(old(tokens)@),
    decreases old(tokens)@.len(),
{
    if front_is_comma(tokens) {
        let _ = pop_front(tokens);
        skip_comma_tokens(tokens);
    }
}

fn is_feature_token(t: &Option<Token>, close: bool) -> (r: bool)
    ensures
        r == (*t matches Some(tk) && tk.typ == TokenType::Feature(if close { FeatureToken::CloseBrace } else { FeatureToken::OpenBrace })),
{
    match t {
        Some(tk) => match &tk.typ {
            TokenType::Feature(FeatureToken::OpenBrace) => !close,
            TokenType::Feature(FeatureToken::CloseBrace) => close,
            _ => false,
        },
        None => false,
    }
}

/// Reads the members of a structure (see `struct_members_spec`).
#[verifier::rlimit(40)]
fn struct_members(tokens: &mut Vec<Token>, smap: SourceMap, acc: Vec<VarDecl>, msgs: &mut Vec<CompileMessage>) -> (r: (Vec<VarDecl>, SourceMap))
    ensures
        (members_view(r.0@), r.1, final(tokens)@, msgs_view(final(msgs)@))
            == struct_members_spec(old(tokens)@, smap, members_view(acc@), msgs_view(old(msgs)@)),
    decreases old(tokens)@.len(),
{
    let len0 = tokens.len();
    let d = match VarDeclSyntax::parse(tokens, msgs) {
        None => return (acc, smap),
        Some(d) => d,
    };
    if front_is_comma(tokens) {
        skip_comma_tokens(tokens);
    } else {
        let n = take_front(tokens);
        proof {
            lemma_type_text(d.data.ty);
        }
        let mut after = String::from_str("struct member declaration ");
        after.append(d.data.name.as_str());
        after.append(": ");
        let t = d.data.ty.describe();
        after.append(t.as_str());
        emit(msgs, expected_error(d.smap.duplicate(), ",", after.as_str(), &n));
    }
    let mut s = smap;
    s.join_with(&d.smap);
    let mut acc1 = acc;
    let m = d.data;
    assert(members_view(acc1@.push(m)) =~= members_view(acc1@).push(member_view(m)));
    acc1.push(m);
    if tokens.len() < len0 {
        struct_members(tokens, s, acc1, msgs)
    } else {
        (acc1, s)
    }
}

impl GenericSyntax<Structure> {
    /// Reads a structure (see `struct_spec`).
    #[verifier::rlimit(40)]
    pub fn parse(tokens: &mut Vec<Token>, msgs: &mut Vec<CompileMessage>) -> (r: Option<StructureSyntax>)
        ensures
            (opt_struct_view(r), final(tokens)@, msgs_view(final(msgs)@)) == struct_spec(old(tokens)@, msgs_view(old(msgs)@)),
    {
        let is_struct = tokens.len() > 0 && match &tokens[0].typ {
            TokenType::Statement(StatementToken::StructKW) => true,
            _ => false,
        };
        if !is_struct {
            return None;
        }
        let smap = pop_front(tokens).smap;
        let type_parameters: Vec<String> = if front_is_op(tokens, "<") {
            let _ = pop_front(tokens);
            let acc: Vec<String> = Vec::new();
            assert(acc@ =~= Seq::<String>::empty());
            tparams(tokens, &smap, acc, "generic struct declaration", msgs)
        } else {
            let acc: Vec<String> = Vec::new();
            assert(acc@ =~= Seq::<String>::empty());
            acc
        };
        let next = take_front(tokens);
        let (name, imap) = match next {
            Some(Token { typ: TokenType::Expression(ExpressionToken::Identifier(name)), smap: imap }) => (name, imap),
            _ => {
                emit(msgs, expected_error(smap, "identifier", "'struct' keyword", &next));
                return None;
            },
        };
        let mut smap1 = smap;
        smap1.join_with(&imap);
        let n2 = take_front(tokens);
        if !is_feature_token(&n2, false) {
            let mut after = String::from_str("struct '");
            after.append(name.as_str());
            after.append("' declaration");
            emit(msgs, expected_error(smap1, "{", after.as_str(), &n2));
            return None;
        }
        match &n2 {
            Some(tk) => smap1.join_with(&tk.smap),
            None => {},
        }
        let acc: Vec<VarDecl> = Vec::new();
        assert(members_view(acc@) =~= Seq::<MemberV>::empty());
        let (members, smap3) = struct_members(tokens, smap1, acc, msgs);
        let n3 = take_front(tokens);
        if !is_feature_token(&n3, true) {
            let mut after = String::from_str("struct members declaration in struct: ");
            after.append(name.as_str());
            emit(msgs, expected_error(smap3, "}", after.as_str(), &n3));
            return None;
        }
        let mut s = smap3;
        match &n3 {
            Some(tk) => s.join_with(&tk.smap),
            None => {},
        }
        Some(GenericSyntax { data: Structure { name, type_parameters, members }, smap: s })
    }
}

/// An item of a module: a function or a structure.
pub enum Item {
    Func(FunctionSyntax),
    Struct(StructureSyntax),
}

pub enum ItemV {
    Func(FunctionV),
    Struct(StructV),
}

pub open spec fn item_view(i: Item) -> ItemV {
    match i {
        Item::Func(f) => ItemV::Func(function_view(f)),
        Item::Struct(s) => ItemV::Struct(struct_view(s)),
    }
}

pub open spec fn items_view(is: Seq<Item>) -> Seq<ItemV> {
    is.map_values(|i: Item| item_view(i))
}

/// Reading an item: a function, else a structure, from what the attempt
/// at a function left.
pub open spec fn item_spec(ts: Seq<Token>, ms: Seq<MsgV>) -> (Option<ItemV>, Seq<Token>, Seq<MsgV>) {
    let (f, t1, ms1) = function_spec(ts, ms);
    match f {
        Some(x) => (Some(ItemV::Func(x)), t1, ms1),
        None => {
            let (s, t2, ms2) = struct_spec(t1, ms1);
            match s {
                Some(x) => (Some(ItemV::Struct(x)), t2, ms2),
                None => (None, t2, ms2),
            }
        },
    }
}

/// Reads an item (see `item_spec`).
pub fn parse_item(tokens: &mut Vec<Token>, msgs: &mut Vec<CompileMessage>) -> (r: Option<Item>)
    ensures
        (match r {
            Some(i) => Some(item_view(i)),
            None => None,
        }, final(tokens)@, msgs_view(final(msgs)@)) == item_spec(old(tokens)@, msgs_view(old(msgs)@)),
{
    match FunctionSyntax::parse(tokens, msgs) {
        Some(f) => Some(Item::Func(f)),
        None => match StructureSyntax::parse(tokens, msgs) {
            Some(s) => Some(Item::Struct(s)),
            None => None,
        },
    }
}

/// The items of a module after the ones read, `acc`, to the end of the
/// tokens: a `;` between items is skipped, and any other token that starts
/// no item is taken with an error.
pub open spec fn module_items_spec(ts: Seq<Token>, acc: Seq<ItemV>, ms: Seq<MsgV>) -> (Seq<ItemV>, Seq<MsgV>)
    decreases ts.len(),
{
    if ts.len() == 0 {
        (acc, ms)
    } else {
        let (it, t1, ms1) = item_spec(ts, ms);
        match it {
            Some(i) => if t1.len() < ts.len() {
                module_items_spec(t1, acc.push(i), ms1)
            } else {
                (acc.push(i), ms1)
            },
            None => if t1.len() == 0 || t1.len() > ts.len() {
                (acc, ms1)
            } else if next_is_feature(t1, FeatureToken::StatementEnd) {
                module_items_spec(tail(t1), acc, ms1)
            } else {
                module_items_spec(tail(t1), acc, ms1.push(error_msg(t1[0].smap, "Unexpected token "@ + token_text(t1[0].typ))))
            },
        }
    }
}

/// Reads the items of a module (see `module_items_spec`).
pub fn parse_items(tokens: &mut Vec<Token>, acc: Vec<Item>, msgs: &mut Vec<CompileMessage>) -> (r: Vec<Item>)
    ensures
        (items_view(r@), msgs_view(final(msgs)@)) == module_items_spec(old(tokens)@, items_view(acc@), msgs_view(old(msgs)@)),
    decreases old(tokens)@.len(),
{
    let len0 = tokens.len();
    if len0 == 0 {
        return acc;
    }
    match parse_item(tokens, msgs) {
        Some(i) => {
            let mut acc1 = acc;
            assert(items_view(acc1@.push(i)) =~= items_view(acc1@).push(item_view(i)));
            acc1.push(i);
            if tokens.len() < len0 {
                parse_items(tokens, acc1, msgs)
            } else {
                acc1
            }
        },
        None => {
            if tokens.len() == 0 || tokens.len() > len0 {
                return acc;
            }
            if front_kind(tokens) == 2 {
                let _ = pop_front(tokens);
                parse_items(tokens, acc, msgs)
            } else {
                let t = pop_front(tokens);
                let d = describe_token(&t.typ);
                let mut text = String::from_str("Unexpected token ");
                text.append(d.as_str());
                emit(msgs, err_at(t.smap, text));
                parse_items(tokens, acc, msgs)
            }
        },
    }
}

} // verus!
