use vstd::prelude::*;
use crate::lambda_jit::il_env::{Env, Machine};
use crate::common::utils::chars::{append_decimal, chars_of};
use crate::common::utils::labels::str_eq;
use crate::lambda_jit::decimal::Dec;
use crate::lambda_jit::lambda_il::{DataLocation, IArg, RefKind, Register, Value, instr_view, loc_view};
use crate::lambda_parser::expression::{ExprNode, ExprV, expr_view, exprs_view};
use crate::lambda_parser::tokenization::NumericalLiteral;
use crate::lambda::compile::{
    BState, CItem, CRes, cok, cbinary, cdecl, cdyn, cif, cmul, csum, cunary, add_decls, apply_from, builder_state, cargs, cexpr, cnamed, cnode, expr_wf, exprs_wf, functions_view,
    held_wf, ins, item_view, label_name, lemma_add_decls_concat, lemma_apply_concat, lemma_apply_one, lemma_cargs_err,
    lemma_cbuild, lemma_exprs_wf, literal_dec, literal_parts, store_const,
};
use crate::lambda_jit::lambda_il::InstrV;
use crate::lambda_jit::lambda_il::{
    Bytecode, BytecodeBuilder, BytecodePrecomp, Instruction, main_label, missing_symbol_message, relocatable, relocate,
    spec_build,
};

verus! {

/// The names called by name in the code, in order, each time it is called.
pub open spec fn dynamic_names(code: Seq<Instruction>) -> Seq<Seq<char>>
    decreases code.len(),
{
    if code.len() == 0 {
        Seq::empty()
    } else {
        match code.last() {
            Instruction::CallDynamic(s) => dynamic_names(code.drop_last()).push(s@),
            _ => dynamic_names(code.drop_last()),
        }
    }
}

/// The code and labels after placing, for each name in turn that has a
/// function, a label of that name and the function's code moved to where
/// it is placed.
pub open spec fn link_functions(names: Seq<Seq<char>>, fns: Map<Seq<char>, Bytecode>) -> (Seq<BytecodePrecomp>, Map<Seq<char>, usize>)
    decreases names.len(),
{
    if names.len() == 0 {
        (Seq::empty(), Map::empty())
    } else {
        let (p, l) = link_functions(names.drop_last(), fns);
        let n = names.last();
        if fns.contains_key(n) {
            (p + fns[n].code@.map_values(|i: Instruction| relocate(i, p.len())), l.insert(n, p.len() as usize))
        } else {
            (p, l)
        }
    }
}

/// Every function placed by `link_functions` can be moved to its place.
pub open spec fn link_fits(names: Seq<Seq<char>>, fns: Map<Seq<char>, Bytecode>) -> bool {
    forall|k: int|
        0 <= k < names.len() && fns.contains_key(#[trigger] names[k]) ==> forall|i: int|
            0 <= i < fns[names[k]].code@.len() ==> relocatable(
                #[trigger] fns[names[k]].code@[i],
                link_functions(names.take(k), fns).0.len(),
            )
}

/// The main code as the builder holds it: calls by name become calls to
/// labels.
pub open spec fn main_items(code: Seq<Instruction>) -> Seq<BytecodePrecomp> {
    code.map_values(
        |i: Instruction|
            match i {
                Instruction::CallDynamic(s) => BytecodePrecomp::Call(s),
                other => BytecodePrecomp::Instruction(other),
            },
    )
}

/// The held items of the linked program: the functions the main code calls
/// by name, then the main code.
pub open spec fn linked_items(main: Seq<Instruction>, fns: Map<Seq<char>, Bytecode>) -> Seq<BytecodePrecomp> {
    link_functions(dynamic_names(main), fns).0 + main_items(main)
}

/// The labels of the linked program: one per placed function, and `main`
/// where the main code starts.
pub open spec fn linked_labels(main: Seq<Instruction>, fns: Map<Seq<char>, Bytecode>) -> Map<Seq<char>, usize> {
    let (p, l) = link_functions(dynamic_names(main), fns);
    l.insert(main_label(), p.len() as usize)
}

/// Two held items that resolve alike: the same instruction, or calls to
/// labels of the same name.
pub open spec fn same_item(a: BytecodePrecomp, b: BytecodePrecomp) -> bool {
    match (a, b) {
        (BytecodePrecomp::Instruction(x), BytecodePrecomp::Instruction(y)) => x == y,
        (BytecodePrecomp::Call(s), BytecodePrecomp::Call(t)) => s@ == t@,
        _ => a == b,
    }
}

proof fn lemma_build_same(p: Seq<BytecodePrecomp>, q: Seq<BytecodePrecomp>, labels: Map<Seq<char>, usize>)
    requires
        p.len() == q.len(),
        forall|t: int| 0 <= t < p.len() ==> same_item(#[trigger] p[t], q[t]),
    ensures
        spec_build(p, labels) == spec_build(q, labels),
    decreases p.len(),
{
    if p.len() > 0 {
        assert forall|t: int| 0 <= t < p.len() - 1 implies same_item(#[trigger] p.drop_last()[t], q.drop_last()[t]) by {
            assert(p.drop_last()[t] == p[t] && q.drop_last()[t] == q[t]);
        }
        lemma_build_same(p.drop_last(), q.drop_last(), labels);
        assert(same_item(p[p.len() - 1], q[q.len() - 1]));
    }
}

impl Env {
    /// Links a program with the functions it calls by name: each such
    /// function is placed under a label of its name before the main code,
    /// and the calls by name become calls to those labels; the program
    /// starts at the main code. A call to a name with no function is the
    /// error `Couldnt find symbol: <name>`.
    pub fn link(&self, main: Bytecode) -> (r: Result<Bytecode, String>)
        requires
            self.dynamic_functions.wf(),
            link_fits(dynamic_names(main.code@), self.dynamic_functions.view()),
        ensures
            match spec_build(
                linked_items(main.code@, self.dynamic_functions.view()),
                linked_labels(main.code@, self.dynamic_functions.view()),
            ) {
                Ok(c) => r matches Ok(b) && b.code@ == c && b.entry == link_functions(
                    dynamic_names(main.code@),
                    self.dynamic_functions.view(),
                ).0.len() as usize,
                Err(n) => r matches Err(m) && m@ == missing_symbol_message(n),
            },
    {
        let ghost fns = self.dynamic_functions.view();
        let ghost code = main.code@;
        let mut dyns: Vec<String> = Vec::new();
        let mut i: usize = 0;
        assert(code.take(0) =~= Seq::<Instruction>::empty());
        assert(dyns@.map_values(|s: String| s@) =~= Seq::<Seq<char>>::empty());
        while i < main.code.len()
            invariant
                code == main.code@,
                i <= code.len(),
                dyns@.map_values(|s: String| s@) == dynamic_names(code.take(i as int)),
            decreases code.len() - i,
        {
            assert(code.take(i + 1).drop_last() =~= code.take(i as int));
            assert(code.take(i + 1).last() == code[i as int]);
            match &main.code[i] {
                Instruction::CallDynamic(s) => {
                    let ghost before = dyns@.map_values(|s: String| s@);
                    dyns.push(s.clone());
                    assert(dyns@.map_values(|s: String| s@) =~= before.push(s@));
                },
                _ => {},
            }
            i = i + 1;
        }
        assert(code.take(code.len() as int) =~= code);
        let ghost names = dyns@.map_values(|s: String| s@);
        let mut builder = BytecodeBuilder::new();
        let mut k: usize = 0;
        assert(names.take(0) =~= Seq::<Seq<char>>::empty());
        assert(builder.pre() =~= link_functions(names.take(0), fns).0);
        assert(builder.labels_spec() =~= link_functions(names.take(0), fns).1);
        while k < dyns.len()
            invariant
                names == dyns@.map_values(|s: String| s@),
                names == dynamic_names(code),
                fns == self.dynamic_functions.view(),
                self.dynamic_functions.wf(),
                link_fits(names, fns),
                k <= names.len(),
                builder.wf(),
                builder.pre() == link_functions(names.take(k as int), fns).0,
                builder.labels_spec() == link_functions(names.take(k as int), fns).1,
            decreases names.len() - k,
        {
            assert(names.take(k + 1).drop_last() =~= names.take(k as int));
            assert(names.take(k + 1).last() == names[k as int]);
            let name = dyns[k].as_str();
            match self.dynamic_functions.get_ref(name) {
                Some(bc) => {
                    let ghost p = builder.pre();
                    assert(fns.contains_key(names[k as int]));
                    builder.decl_label(name);
                    assert(forall|j: int| 0 <= j < bc.code@.len() ==> relocatable(#[trigger] bc.code@[j], p.len()));
                    builder.add_code(bc.duplicate(), true);
                },
                None => {},
            }
            k = k + 1;
        }
        assert(names.take(names.len() as int) =~= names);
        let ghost placed = builder.pre();
        proof {
            reveal_strlit("main");
            assert("main"@ =~= main_label());
        }
        builder.decl_label("main");
        let mut rest = main.code;
        let n = rest.len();
        let mut j: usize = 0;
        assert(code.skip(0) =~= code);
        while rest.len() > 0
            invariant
                n == code.len(),
                j + rest@.len() == code.len(),
                rest@ == code.skip(j as int),
                builder.wf(),
                builder.pre().len() == placed.len() + j,
                builder.pre().take(placed.len() as int) == placed,
                forall|t: int| 0 <= t < j ==> same_item(#[trigger] builder.pre()[placed.len() + t], main_items(code)[t]),
                builder.labels_spec() == linked_labels(code, fns),
                builder.entry_spec() == placed.len() as usize,
            decreases rest@.len(),
        {
            let ins = rest.remove(0);
            assert(ins == code[j as int]);
            let ghost before = builder.pre();
            match ins {
                Instruction::CallDynamic(s) => {
                    builder.call(s.as_str());
                },
                other => {
                    builder.emit(other);
                },
            }
            assert(builder.pre().drop_last() == before);
            assert(builder.pre().take(placed.len() as int) =~= before.take(placed.len() as int));
            assert forall|t: int| 0 <= t < j + 1 implies same_item(#[trigger] builder.pre()[placed.len() + t], main_items(code)[t]) by {
                if t < j {
                    assert(builder.pre()[placed.len() + t] == before[placed.len() + t]);
                }
            }
            j = j + 1;
            assert(rest@ =~= code.skip(j as int));
        }
        proof {
            let full = linked_items(code, fns);
            assert(full.len() == builder.pre().len());
            assert forall|t: int| 0 <= t < full.len() implies same_item(#[trigger] builder.pre()[t], full[t]) by {
                if t < placed.len() {
                    assert(builder.pre()[t] == builder.pre().take(placed.len() as int)[t]);
                } else {
                    assert(same_item(builder.pre()[placed.len() + (t - placed.len())], main_items(code)[t - placed.len()]));
                }
            }
            lemma_build_same(builder.pre(), full, linked_labels(code, fns));
        }
        builder.build()
    }
}


/// What a compiled node guarantees: on success, the value or `None`, the
/// builder holding the node's steps after its old ones, and the next label.
pub open spec fn node_post(c: CRes, r: Result<Option<Value>, String>, b0: BytecodeBuilder, b1: BytecodeBuilder, lab1: u64) -> bool {
    match c.ok {
        Ok(v) => {
            &&& r == Ok::<Option<Value>, String>(v)
            &&& b1.wf()
            &&& held_wf(b1)
            &&& builder_state(b1) == apply_from(builder_state(b0), c.steps)
            &&& lab1 == c.lab
            &&& (v matches Some(x) ==> x.wf())
        },
        Err(m) => r is Err && r->Err_0@ == m,
    }
}

/// What compiling does to the machine: it defines the functions `ds` in
/// order and changes nothing else.
pub open spec fn env_post(e0: Env, e1: Env, ds: Seq<(Seq<char>, Seq<InstrV>, usize)>) -> bool {
    &&& e1.wf()
    &&& functions_view(e1.m().functions) == add_decls(functions_view(e0.m().functions), ds)
    &&& e1.m() == (Machine { functions: e1.m().functions, ..e0.m() })
}

proof fn lemma_env_chain(e0: Env, e1: Env, e2: Env, a: Seq<(Seq<char>, Seq<InstrV>, usize)>, b: Seq<(Seq<char>, Seq<InstrV>, usize)>)
    requires
        env_post(e0, e1, a),
        env_post(e1, e2, b),
    ensures
        env_post(e0, e2, a + b),
{
    lemma_add_decls_concat(functions_view(e0.m().functions), a, b);
}

proof fn lemma_env_same(e: Env)
    requires
        e.wf(),
    ensures
        env_post(e, e, Seq::empty()),
{
    assert(e.m() =~= (Machine { functions: e.m().functions, ..e.m() }));
}

/// Appends an instruction.
fn put(bc: &mut BytecodeBuilder, i: Instruction)
    requires
        old(bc).wf(),
        held_wf(*old(bc)),
        i.wf(),
    ensures
        final(bc).wf(),
        held_wf(*final(bc)),
        builder_state(*final(bc)) == apply_from(builder_state(*old(bc)), ins(instr_view(i))),
{
    let ghost iv = instr_view(i);
    bc.emit(i);
    proof {
        lemma_apply_one(builder_state(*old(bc)), CItem::Instr(iv));
        assert(bc.pre().map_values(|p: BytecodePrecomp| item_view(p)) =~= old(bc).pre().map_values(
            |p: BytecodePrecomp| item_view(p),
        ).push(CItem::Instr(iv)));
        assert forall|k: int| 0 <= k < bc.pre().len() implies (#[trigger] bc.pre()[k] matches BytecodePrecomp::Instruction(j) ==> j.wf()) by {
            if k < old(bc).pre().len() {
                assert(bc.pre()[k] == old(bc).pre()[k]);
            }
        }
    }
}

/// Appends a call or jump of kind `kind` to the label `name`.
fn put_ref(bc: &mut BytecodeBuilder, kind: RefKind, name: &str)
    requires
        old(bc).wf(),
        held_wf(*old(bc)),
    ensures
        final(bc).wf(),
        held_wf(*final(bc)),
        builder_state(*final(bc)) == apply_from(builder_state(*old(bc)), seq![CItem::Ref(kind, name@)]),
{
    let ghost k = kind;
    match kind {
        RefKind::Call => { bc.call(name); },
        RefKind::Jump => { bc.jump(name); },
        RefKind::JumpZero => { bc.jump_zero(name); },
        RefKind::JumpNotZero => { bc.jump_not_zero(name); },
        RefKind::JumpLess => { bc.jump_less(name); },
        RefKind::JumpGreater => { bc.jump_greater(name); },
        RefKind::JumpLessEq => { bc.jump_less_eq(name); },
        RefKind::JumpGreatEq => { bc.jump_greater_eq(name); },
    }
    proof {
        lemma_apply_one(builder_state(*old(bc)), CItem::Ref(k, name@));
        assert(item_view(bc.pre().last()) == CItem::Ref(k, name@));
        assert(bc.pre() =~= old(bc).pre().push(bc.pre().last()));
        assert(bc.pre().map_values(|p: BytecodePrecomp| item_view(p)) =~= old(bc).pre().map_values(
            |p: BytecodePrecomp| item_view(p),
        ).push(CItem::Ref(k, name@)));
        assert forall|j: int| 0 <= j < bc.pre().len() implies (#[trigger] bc.pre()[j] matches BytecodePrecomp::Instruction(x) ==> x.wf()) by {
            if j < old(bc).pre().len() {
                assert(bc.pre()[j] == old(bc).pre()[j]);
            }
        }
    }
}

/// Declares the label `name` here.
fn put_label(bc: &mut BytecodeBuilder, name: &str)
    requires
        old(bc).wf(),
        held_wf(*old(bc)),
    ensures
        final(bc).wf(),
        held_wf(*final(bc)),
        builder_state(*final(bc)) == apply_from(builder_state(*old(bc)), seq![CItem::Label(name@)]),
{
    bc.decl_label(name);
    proof {
        lemma_apply_one(builder_state(*old(bc)), CItem::Label(name@));
    }
}

/// The name of the label numbered `n`.
fn label_text(n: u64) -> (s: String)
    ensures
        s@ == label_name(n as nat),
{
    let mut s = String::new();
    append_decimal(&mut s, n as u128);
    s
}

/// A number literal as a decimal (see `literal_dec`).
fn literal_to_dec(lit: &NumericalLiteral) -> (r: Option<Dec>)
    ensures
        r == literal_dec(lit.literal@, lit.flags),
        r matches Some(d) ==> d.wf(),
{
    let cs = chars_of(lit.literal.as_str());
    let ghost t = lit.literal@;
    let mut m: i128 = 0;
    let mut f: usize = 0;
    let mut dot = false;
    let mut i: usize = 0;
    assert(t.subrange(0, 0) =~= Seq::<char>::empty());
    while i < cs.len()
        invariant
            cs@ == t,
            t == lit.literal@,
            i <= t.len(),
            literal_parts(t.subrange(0, i as int)) == Some((m as int, f as nat, dot)),
            0 <= m <= crate::lambda_jit::decimal::MAX_MANTISSA,
            f <= i,
        decreases t.len() - i,
    {
        let c = cs[i];
        let ghost pre = t.subrange(0, i + 1);
        assert(pre.drop_last() =~= t.subrange(0, i as int));
        assert(pre.last() == c);
        if '0' <= c && c <= '9' {
            let d = (c as u32 - '0' as u32) as i128;
            assert(d == c as int - '0' as int);
            if m > (crate::lambda_jit::decimal::MAX_MANTISSA - d) / 10 {
                assert(m * 10 + d > crate::lambda_jit::decimal::MAX_MANTISSA) by (nonlinear_arith)
                    requires
                        m > (crate::lambda_jit::decimal::MAX_MANTISSA - d) / 10,
                        0 <= d <= 9,
                ;
                assert(literal_parts(pre) is None);
                proof {
                lemma_literal_none_extends(t, i as int + 1);
                assert(literal_parts(lit.literal@) is None);
                assert(literal_dec(lit.literal@, lit.flags) is None);
            }
                return None;
            }
            assert(m * 10 + d <= crate::lambda_jit::decimal::MAX_MANTISSA) by (nonlinear_arith)
                requires
                    m <= (crate::lambda_jit::decimal::MAX_MANTISSA - d) / 10,
                    0 <= d <= 9,
            ;
            m = m * 10 + d;
            if dot {
                f = f + 1;
            }
        } else if c == '.' && !dot {
            dot = true;
        } else {
            assert(literal_parts(pre) is None);
            proof {
                lemma_literal_none_extends(t, i as int + 1);
                assert(literal_parts(lit.literal@) is None);
                assert(literal_dec(lit.literal@, lit.flags) is None);
            }
            return None;
        }
        i = i + 1;
    }
    assert(t.subrange(0, t.len() as int) =~= t);
    let extra: usize = if lit.flags % 2 == 1 { 2 } else { 0 };
    if f > 28 - extra {
        None
    } else {
        Some(Dec { mantissa: m, scale: (f + extra) as u32 })
    }
}

proof fn lemma_literal_none_extends(t: Seq<char>, j: int)
    requires
        0 <= j <= t.len(),
        literal_parts(t.subrange(0, j)) is None,
    ensures
        literal_parts(t) is None,
    decreases t.len() - j,
{
    if j < t.len() {
        let next = t.subrange(0, j + 1);
        assert(next.drop_last() =~= t.subrange(0, j));
        lemma_literal_none_extends(t, j + 1);
    } else {
        assert(t.subrange(0, j) =~= t);
    }
}


proof fn lemma_exprs_view_index(es: Seq<ExprNode>, k: int)
    requires
        0 <= k < es.len(),
    ensures
        exprs_view(es).len() == es.len(),
        exprs_view(es)[k] == expr_view(es[k]),
    decreases es.len(),
{
    lemma_exprs_view_len(es);
    if k > 0 {
        lemma_exprs_view_index(es.subrange(1, es.len() as int), k - 1);
        assert(es.subrange(1, es.len() as int)[k - 1] == es[k]);
    }
}

proof fn lemma_exprs_view_len(es: Seq<ExprNode>)
    ensures
        exprs_view(es).len() == es.len(),
    decreases es.len(),
{
    if es.len() > 0 {
        lemma_exprs_view_len(es.subrange(1, es.len() as int));
    }
}

/// The argument for a compiled operand (see `operand_arg`).
fn operand(v: Option<Value>) -> (a: IArg)
    requires
        v matches Some(x) ==> x.wf(),
    ensures
        crate::lambda_jit::lambda_il::arg_view(a) == crate::lambda::compile::operand_arg(v),
        a.wf(),
{
    match v {
        Some(x) => IArg::Value(x),
        None => IArg::Data(DataLocation::StackStackOffset(-1)),
    }
}

fn int_val(m: i64) -> (v: Value)
    ensures
        v == crate::lambda::compile::int_value(m as int),
        v.wf(),
{
    Value::Num(Dec { mantissa: m as i128, scale: 0 })
}

/// The jump a comparison operator takes when it holds.
fn comparison_kind(op: &str) -> (k: RefKind)
    ensures
        k == crate::lambda::compile::comparison_jump(op@),
{
    if str_eq(op, "<") {
        RefKind::JumpLess
    } else if str_eq(op, ">") {
        RefKind::JumpGreater
    } else if str_eq(op, "<=") {
        RefKind::JumpLessEq
    } else if str_eq(op, ">=") {
        RefKind::JumpGreatEq
    } else if str_eq(op, "==") {
        RefKind::JumpZero
    } else {
        RefKind::JumpNotZero
    }
}

fn is_comparison_op(op: &str) -> (b: bool)
    ensures
        b == crate::lambda::compile::is_comparison(op@),
{
    str_eq(op, "<") || str_eq(op, "<=") || str_eq(op, ">") || str_eq(op, ">=") || str_eq(op, "==") || str_eq(op, "!=")
}

fn message_with(prefix: &str, tail: &str) -> (m: String)
    ensures
        m@ == prefix@ + tail@,
{
    let mut m = String::from_str(prefix);
    m.append(tail);
    m
}


fn emit_g(bc: &mut BytecodeBuilder, i: Instruction, Ghost(s0): Ghost<BState>, acc: Ghost<Seq<CItem>>) -> (g: Ghost<Seq<CItem>>)
    requires
        old(bc).wf(),
        held_wf(*old(bc)),
        i.wf(),
        builder_state(*old(bc)) == apply_from(s0, acc@),
    ensures
        final(bc).wf(),
        held_wf(*final(bc)),
        g@ == acc@ + ins(instr_view(i)),
        builder_state(*final(bc)) == apply_from(s0, g@),
{
    let ghost iv = instr_view(i);
    put(bc, i);
    proof {
        lemma_apply_concat(s0, acc@, ins(iv));
    }
    Ghost(acc@ + ins(iv))
}

fn ref_g(bc: &mut BytecodeBuilder, kind: RefKind, name: &str, Ghost(s0): Ghost<BState>, acc: Ghost<Seq<CItem>>) -> (g: Ghost<Seq<CItem>>)
    requires
        old(bc).wf(),
        held_wf(*old(bc)),
        builder_state(*old(bc)) == apply_from(s0, acc@),
    ensures
        final(bc).wf(),
        held_wf(*final(bc)),
        g@ == acc@ + seq![CItem::Ref(kind, name@)],
        builder_state(*final(bc)) == apply_from(s0, g@),
{
    let ghost k = kind;
    put_ref(bc, kind, name);
    proof {
        lemma_apply_concat(s0, acc@, seq![CItem::Ref(k, name@)]);
    }
    Ghost(acc@ + seq![CItem::Ref(k, name@)])
}

fn label_g(bc: &mut BytecodeBuilder, name: &str, Ghost(s0): Ghost<BState>, acc: Ghost<Seq<CItem>>) -> (g: Ghost<Seq<CItem>>)
    requires
        old(bc).wf(),
        held_wf(*old(bc)),
        builder_state(*old(bc)) == apply_from(s0, acc@),
    ensures
        final(bc).wf(),
        held_wf(*final(bc)),
        g@ == acc@ + seq![CItem::Label(name@)],
        builder_state(*final(bc)) == apply_from(s0, g@),
{
    put_label(bc, name);
    proof {
        lemma_apply_concat(s0, acc@, seq![CItem::Label(name@)]);
    }
    Ghost(acc@ + seq![CItem::Label(name@)])
}

/// Stores a constant into the output, when there is one.
fn store_g(bc: &mut BytecodeBuilder, v: Option<Value>, output: &DataLocation, Ghost(s0): Ghost<BState>, acc: Ghost<Seq<CItem>>) -> (g: Ghost<Seq<CItem>>)
    requires
        old(bc).wf(),
        held_wf(*old(bc)),
        v matches Some(x) ==> x.wf(),
        builder_state(*old(bc)) == apply_from(s0, acc@),
    ensures
        final(bc).wf(),
        held_wf(*final(bc)),
        g@ == acc@ + store_const(v, loc_view(*output)),
        builder_state(*final(bc)) == apply_from(s0, g@),
{
    match v {
        Some(x) => emit_g(bc, Instruction::Store(output.duplicate(), IArg::Value(x)), Ghost(s0), acc),
        None => {
            assert(acc@ + Seq::<CItem>::empty() =~= acc@);
            acc
        },
    }
}

proof fn lemma_then(s0: BState, acc: Seq<CItem>, steps: Seq<CItem>, mid: BState, fin: BState)
    requires
        mid == apply_from(s0, acc),
        fin == apply_from(mid, steps),
    ensures
        fin == apply_from(s0, acc + steps),
{
    lemma_apply_concat(s0, acc, steps);
}


/// Compiles an expression whose value goes to `output` (see `cnode`).
#[verifier::rlimit(80)]
fn compile_node(expr: &ExprNode, bc: &mut BytecodeBuilder, label: &mut u64, env: &mut Env, output: &DataLocation) -> (r: Result<Option<Value>, String>)
    requires
        old(bc).wf(),
        held_wf(*old(bc)),
        old(env).wf(),
        expr_wf(expr_view(*expr)),
    ensures
        node_post(cnode(expr_view(*expr), loc_view(*output), *old(label) as nat), r, *old(bc), *final(bc), *final(label)),
        env_post(*old(env), *final(env), cnode(expr_view(*expr), loc_view(*output), *old(label) as nat).decls),
    decreases *expr, 2nat,
{
    let ghost s0 = builder_state(*bc);
    let ghost out = loc_view(*output);
    let ghost env0 = *env;
    let ghost lab0 = *label as nat;
    let mut acc: Ghost<Seq<CItem>> = Ghost(Seq::empty());
    assert(apply_from(s0, Seq::<CItem>::empty()) == s0);
    match expr {
        ExprNode::InlineInstruction(i) => {
            proof { lemma_instr_view_wf(*i); lemma_env_same(*env); }
            acc = emit_g(bc, i.duplicate(), Ghost(s0), acc);
            assert(acc@ =~= ins(instr_view(*i)));
            assert(cnode(expr_view(*expr), out, lab0) == cok(None, ins(instr_view(*i)), lab0, Seq::empty()));
            Ok(None)
        },
        ExprNode::Argument(u) => {
            let off: isize = -3 - (*u as isize);
            proof { lemma_env_same(*env); }
            acc = emit_g(bc, Instruction::Store(output.duplicate(), IArg::Data(DataLocation::StackBottomOffset(off))), Ghost(s0), acc);
            assert(acc@ =~= cnode(expr_view(*expr), out, lab0).steps);
            Ok(None)
        },
        ExprNode::CallOperation { caller, args } => {
            assert(cnode(expr_view(*expr), out, lab0) == crate::lambda::compile::cnamed(caller@, exprs_view(args@), out, lab0));
            compile_call(caller.as_str(), args, bc, label, env, output)
        },
        ExprNode::CallExpr { caller, args } => {
            match &**caller {
                ExprNode::Ident(s) => {
                    assert(expr_view(**caller) == ExprV::Ident(s@));
                    assert(cnode(expr_view(*expr), out, lab0) == crate::lambda::compile::cnamed(s@, exprs_view(args@), out, lab0));
                    compile_call(s.as_str(), args, bc, label, env, output)
                },
                _ => {
                    assert(cnode(expr_view(*expr), out, lab0) == cmul(expr_view(*expr), out, lab0));
                    compile_mul(expr, bc, label, env, output)
                },
            }
        },
        ExprNode::BinaryOperation { .. } => {
            assert(cnode(expr_view(*expr), out, lab0) == cbinary(expr_view(*expr), out, lab0));
            compile_binary(expr, bc, label, env, output)
        },
        ExprNode::UnaryOperation { .. } => {
            assert(cnode(expr_view(*expr), out, lab0) == cunary(expr_view(*expr), out, lab0));
            compile_unary(expr, bc, label, env, output)
        },
        ExprNode::Ident(id) => {
            proof { lemma_env_same(*env); }
            acc = emit_g(bc, Instruction::Store(output.duplicate(), IArg::Data(DataLocation::Dynamic(id.clone()))), Ghost(s0), acc);
            assert(acc@ =~= cnode(expr_view(*expr), out, lab0).steps);
            Ok(None)
        },
        ExprNode::Number(d) => {
            proof { lemma_env_same(*env); }
            Ok(Some(Value::Num(*d)))
        },
        ExprNode::IntNum(n) => {
            proof { lemma_env_same(*env); }
            Ok(Some(int_val(*n)))
        },
        ExprNode::Num(lit) => {
            proof { lemma_env_same(*env); }
            match literal_to_dec(lit) {
                Some(d) => Ok(Some(Value::Num(d))),
                None => Err(message_with("Cannot compile number: ", lit.literal.as_str())),
            }
        },
        ExprNode::Void => {
            proof { lemma_env_same(*env); }
            Ok(None)
        },
        ExprNode::Error(m) => {
            proof { lemma_env_same(*env); }
            Err(m.clone())
        },
        ExprNode::FunctionDecl { .. } => {
            assert(cnode(expr_view(*expr), out, lab0) == cdecl(expr_view(*expr), lab0));
            compile_decl(expr, bc, label, env, output)
        },
        _ => {
            proof { lemma_env_same(*env); }
            Err(String::from_str("cannot compile this expression"))
        },
    }
}

/// Compiles a call on an expression that is not a name (see `cmul`).
fn compile_mul(expr: &ExprNode, bc: &mut BytecodeBuilder, label: &mut u64, env: &mut Env, output: &DataLocation) -> (r: Result<Option<Value>, String>)
    requires
        old(bc).wf(),
        held_wf(*old(bc)),
        old(env).wf(),
        expr_wf(expr_view(*expr)),
        expr_view(*expr) is CallExpr,
    ensures
        node_post(cmul(expr_view(*expr), loc_view(*output), *old(label) as nat), r, *old(bc), *final(bc), *final(label)),
        env_post(*old(env), *final(env), cmul(expr_view(*expr), loc_view(*output), *old(label) as nat).decls),
    decreases *expr, 1nat,
{
    let ghost s0 = builder_state(*bc);
    let ghost out = loc_view(*output);
    let ghost env0 = *env;
    let ghost lab0 = *label as nat;
    let mut acc: Ghost<Seq<CItem>> = Ghost(Seq::empty());
    assert(apply_from(s0, Seq::<CItem>::empty()) == s0);
    let (caller, args) = match expr { ExprNode::CallExpr { caller, args } => (caller, args), _ => { proof { assert(false); } return Err(String::new()); } };
    let ghost vs = exprs_view(args@);
                    proof { lemma_exprs_view_len(args@); }
                    if args.len() != 1 {
                        proof { lemma_env_same(*env); }
                        return Err(String::from_str("Can only multiply expression with 1 argument when using call syntax"));
                    }
                    proof {
                        lemma_exprs_view_index(args@, 0);
                        lemma_exprs_wf(vs, 0);
                        assert(decreases_to!(*expr => args@[0]));
                    }
                    let ghost c0 = cnode(vs[0], out, lab0);
                    let v0 = match compile_node(&args[0], bc, label, env, output) {
                        Ok(v) => v,
                        Err(m) => return Err(m),
                    };
                    let ghost mid0 = builder_state(*bc);
                    proof { lemma_then(s0, acc@, c0.steps, s0, mid0); }
                    acc = Ghost(acc@ + c0.steps);
                    let ghost env1 = *env;
                    if v0.is_none() {
                        acc = emit_g(bc, Instruction::Push(IArg::Data(output.duplicate())), Ghost(s0), acc);
                    } else {
                        assert(acc@ + Seq::<CItem>::empty() =~= acc@);
                    }
                    let ghost c1 = cnode(expr_view(**caller), out, c0.lab);
                    let ghost before1 = builder_state(*bc);
                    let v1 = match compile_node(&**caller, bc, label, env, output) {
                        Ok(v) => v,
                        Err(m) => {
                            proof { lemma_env_chain(env0, env1, *env, c0.decls, c1.decls); }
                            return Err(m);
                        },
                    };
                    proof { lemma_then(s0, acc@, c1.steps, before1, builder_state(*bc)); lemma_env_chain(env0, env1, *env, c0.decls, c1.decls); }
                    acc = Ghost(acc@ + c1.steps);
                    acc = store_g(bc, v1, output, Ghost(s0), acc);
                    acc = emit_g(bc, Instruction::Mul(output.duplicate(), operand(v0)), Ghost(s0), acc);
                    if v0.is_none() {
                        acc = emit_g(bc, Instruction::PopN(1), Ghost(s0), acc);
                    }
                    assert(acc@ =~= cmul(expr_view(*expr), out, lab0).steps);
                    Ok(None)
}

/// Compiles a binary operation (see `cbinary`).
#[verifier::rlimit(80)]
fn compile_binary(expr: &ExprNode, bc: &mut BytecodeBuilder, label: &mut u64, env: &mut Env, output: &DataLocation) -> (r: Result<Option<Value>, String>)
    requires
        old(bc).wf(),
        held_wf(*old(bc)),
        old(env).wf(),
        expr_wf(expr_view(*expr)),
        expr_view(*expr) is Binary,
    ensures
        node_post(cbinary(expr_view(*expr), loc_view(*output), *old(label) as nat), r, *old(bc), *final(bc), *final(label)),
        env_post(*old(env), *final(env), cbinary(expr_view(*expr), loc_view(*output), *old(label) as nat).decls),
    decreases *expr, 1nat,
{
    let ghost s0 = builder_state(*bc);
    let ghost out = loc_view(*output);
    let ghost env0 = *env;
    let ghost lab0 = *label as nat;
    let mut acc: Ghost<Seq<CItem>> = Ghost(Seq::empty());
    assert(apply_from(s0, Seq::<CItem>::empty()) == s0);
    let (op, operands) = match expr { ExprNode::BinaryOperation { op, operands } => (op, operands), _ => { proof { assert(false); } return Err(String::new()); } };

            let lhs = &operands.0;
            let rhs = &operands.1;
            proof {
                assert(decreases_to!(*expr => operands.1));
                assert(decreases_to!(*expr => operands.0));
            }
            let ghost c0 = cnode(expr_view(*rhs), out, lab0);
            let v0 = match compile_node(rhs, bc, label, env, output) {
                Ok(v) => v,
                Err(m) => return Err(m),
            };
            proof { lemma_then(s0, acc@, c0.steps, s0, builder_state(*bc)); }
            acc = Ghost(acc@ + c0.steps);
            let ghost env1 = *env;
            if v0.is_none() {
                acc = emit_g(bc, Instruction::Push(IArg::Data(output.duplicate())), Ghost(s0), acc);
            } else {
                assert(acc@ + Seq::<CItem>::empty() =~= acc@);
            }
            let is_assign = match lhs {
                ExprNode::Ident(_) => str_eq(op, "="),
                _ => false,
            };
            if is_assign {
                let id = match lhs {
                    ExprNode::Ident(s) => s.clone(),
                    _ => { proof { assert(false); } String::new() },
                };
                acc = emit_g(bc, Instruction::Store(DataLocation::Dynamic(id), operand(v0)), Ghost(s0), acc);
                if v0.is_none() {
                    acc = emit_g(bc, Instruction::PopN(1), Ghost(s0), acc);
                }
                proof { assert(decls_same(env0, *env, c0.decls)); }
                assert(acc@ =~= cbinary(expr_view(*expr), out, lab0).steps);
                return Ok(None);
            }
            let ghost c1 = cnode(expr_view(*lhs), out, c0.lab);
            let ghost before1 = builder_state(*bc);
            let v1 = match compile_node(lhs, bc, label, env, output) {
                Ok(v) => v,
                Err(m) => {
                    proof { lemma_env_chain(env0, env1, *env, c0.decls, c1.decls); }
                    return Err(m);
                },
            };
            proof { lemma_then(s0, acc@, c1.steps, before1, builder_state(*bc)); lemma_env_chain(env0, env1, *env, c0.decls, c1.decls); }
            acc = Ghost(acc@ + c1.steps);
            acc = store_g(bc, v1, output, Ghost(s0), acc);
            let test_op = is_comparison_op(op);
            if test_op {
                acc = emit_g(bc, Instruction::Cmp(IArg::Data(output.duplicate()), operand(v0)), Ghost(s0), acc);
            } else {
                assert(acc@ + Seq::<CItem>::empty() =~= acc@);
            }
            if str_eq(op, "+") {
                acc = emit_g(bc, Instruction::Add(output.duplicate(), operand(v0)), Ghost(s0), acc);
            } else if str_eq(op, "-") {
                acc = emit_g(bc, Instruction::Sub(output.duplicate(), operand(v0)), Ghost(s0), acc);
            } else if str_eq(op, "*") {
                acc = emit_g(bc, Instruction::Mul(output.duplicate(), operand(v0)), Ghost(s0), acc);
            } else if str_eq(op, "/") {
                acc = emit_g(bc, Instruction::Div(output.duplicate(), operand(v0)), Ghost(s0), acc);
            } else if test_op {
                if *label > u64::MAX - 2 {
                    return Err(String::from_str("too many labels"));
                }
                let yes = label_text(*label);
                let end = label_text(*label + 1);
                *label = *label + 2;
                acc = ref_g(bc, comparison_kind(op), yes.as_str(), Ghost(s0), acc);
                acc = emit_g(bc, Instruction::Store(output.duplicate(), IArg::Value(int_val(0))), Ghost(s0), acc);
                acc = ref_g(bc, RefKind::Jump, end.as_str(), Ghost(s0), acc);
                acc = label_g(bc, yes.as_str(), Ghost(s0), acc);
                acc = emit_g(bc, Instruction::Store(output.duplicate(), IArg::Value(int_val(1))), Ghost(s0), acc);
                acc = label_g(bc, end.as_str(), Ghost(s0), acc);
            } else {
                return Err(message_with("Unknown operator: ", op));
            }
            if v0.is_none() {
                acc = emit_g(bc, Instruction::PopN(1), Ghost(s0), acc);
            }
            assert(acc@ =~= cbinary(expr_view(*expr), out, lab0).steps);
            Ok(None)
}

/// Compiles a unary operation (see `cunary`).
fn compile_unary(expr: &ExprNode, bc: &mut BytecodeBuilder, label: &mut u64, env: &mut Env, output: &DataLocation) -> (r: Result<Option<Value>, String>)
    requires
        old(bc).wf(),
        held_wf(*old(bc)),
        old(env).wf(),
        expr_wf(expr_view(*expr)),
        expr_view(*expr) is Unary,
    ensures
        node_post(cunary(expr_view(*expr), loc_view(*output), *old(label) as nat), r, *old(bc), *final(bc), *final(label)),
        env_post(*old(env), *final(env), cunary(expr_view(*expr), loc_view(*output), *old(label) as nat).decls),
    decreases *expr, 1nat,
{
    let ghost s0 = builder_state(*bc);
    let ghost out = loc_view(*output);
    let ghost env0 = *env;
    let ghost lab0 = *label as nat;
    let mut acc: Ghost<Seq<CItem>> = Ghost(Seq::empty());
    assert(apply_from(s0, Seq::<CItem>::empty()) == s0);
    let (op, x) = match expr { ExprNode::UnaryOperation { op, operand } => (op, operand), _ => { proof { assert(false); } return Err(String::new()); } };

            proof { assert(decreases_to!(*expr => **x)); }
            let ghost c0 = cnode(expr_view(**x), out, lab0);
            let v0 = match compile_node(&**x, bc, label, env, output) {
                Ok(v) => v,
                Err(m) => return Err(m),
            };
            proof { lemma_then(s0, acc@, c0.steps, s0, builder_state(*bc)); }
            acc = Ghost(acc@ + c0.steps);
            match v0 {
                Some(v) => {
                    if str_eq(op, "-") {
                        match v.mul(int_val(-1)) {
                            Some(w) => {
                                assert(acc@ =~= c0.steps);
                                Ok(Some(w))
                            },
                            None => Err(String::from_str("arithmetic overflow")),
                        }
                    } else if str_eq(op, "+") {
                        assert(acc@ =~= c0.steps);
                        Ok(Some(v))
                    } else {
                        Err(message_with("Unknown unary operator: ", op))
                    }
                },
                None => {
                    if str_eq(op, "-") {
                        acc = emit_g(bc, Instruction::Mul(output.duplicate(), IArg::Value(int_val(-1))), Ghost(s0), acc);
                        assert(acc@ =~= cunary(expr_view(*expr), out, lab0).steps);
                        Ok(None)
                    } else if str_eq(op, "+") {
                        assert(acc@ =~= c0.steps);
                        Ok(None)
                    } else {
                        Err(message_with("Unknown unary operator: ", op))
                    }
                },
            }
}

/// Compiles a function definition and defines it (see `cdecl`).
fn compile_decl(expr: &ExprNode, bc: &mut BytecodeBuilder, label: &mut u64, env: &mut Env, output: &DataLocation) -> (r: Result<Option<Value>, String>)
    requires
        old(bc).wf(),
        held_wf(*old(bc)),
        old(env).wf(),
        expr_wf(expr_view(*expr)),
        expr_view(*expr) is FunctionDecl,
    ensures
        node_post(cdecl(expr_view(*expr), *old(label) as nat), r, *old(bc), *final(bc), *final(label)),
        env_post(*old(env), *final(env), cdecl(expr_view(*expr), *old(label) as nat).decls),
    decreases *expr, 1nat,
{
    let ghost s0 = builder_state(*bc);
    let ghost out = loc_view(*output);
    let ghost env0 = *env;
    let ghost lab0 = *label as nat;
    let mut acc: Ghost<Seq<CItem>> = Ghost(Seq::empty());
    assert(apply_from(s0, Seq::<CItem>::empty()) == s0);
    let (ident, body) = match expr { ExprNode::FunctionDecl { ident, expr } => (ident, expr), _ => { proof { assert(false); } return Err(String::new()); } };

            proof { assert(decreases_to!(*expr => **body)); }
            let ghost ce = cexpr(expr_view(**body), true);
            match compile_expr(&**body, env, true) {
                Ok(code) => {
                    let ghost env1 = *env;
                    let ghost item = (ident@, code.code@.map_values(|i: Instruction| instr_view(i)), code.entry);
                    env.add_dynamic_mod(ident.clone(), code);
                    proof {
                        assert(functions_view(env.m().functions) =~= functions_view(env1.m().functions).insert(item.0, (item.1, item.2)));
                        assert(env.m() =~= (Machine { functions: env.m().functions, ..env1.m() }));
                        let one = seq![item];
                        assert(one.drop_last() =~= Seq::<(Seq<char>, Seq<InstrV>, usize)>::empty());
                        assert(one.last() == item);
                        let m1 = functions_view(env1.m().functions);
                        assert(add_decls(m1, one.drop_last()) == m1);
                        assert(add_decls(m1, one) == m1.insert(item.0, (item.1, item.2)));
                        assert(env_post(env1, *env, one));
                        lemma_env_chain(env0, env1, *env, ce.1, seq![item]);
                        assert(ce.1 + seq![item] =~= ce.1.push(item));
                    }
                    Ok(None)
                },
                Err(m) => Err(m),
            }
}

spec fn decls_same(e0: Env, e1: Env, ds: Seq<(Seq<char>, Seq<InstrV>, usize)>) -> bool {
    env_post(e0, e1, ds)
}

proof fn lemma_instr_view_wf(i: Instruction)
    ensures
        instr_view(i).wf() == i.wf(),
{
}


/// Compiles a call of the function named `s` (see `cnamed`).
fn compile_call(s: &str, args: &Vec<ExprNode>, bc: &mut BytecodeBuilder, label: &mut u64, env: &mut Env, output: &DataLocation) -> (r: Result<Option<Value>, String>)
    requires
        old(bc).wf(),
        held_wf(*old(bc)),
        old(env).wf(),
        exprs_wf(exprs_view(args@)),
    ensures
        node_post(cnamed(s@, exprs_view(args@), loc_view(*output), *old(label) as nat), r, *old(bc), *final(bc), *final(label)),
        env_post(*old(env), *final(env), cnamed(s@, exprs_view(args@), loc_view(*output), *old(label) as nat).decls),
    decreases *args, 2nat,
{
    if str_eq(s, "if") {
        compile_if(args, bc, label, env, output)
    } else if str_eq(s, "sum") {
        compile_sum(args, bc, label, env, output)
    } else {
        compile_dyn(s, args, bc, label, env, output)
    }
}

/// Compiles `if(c, a, b)` (see `cif`).
fn compile_if(args: &Vec<ExprNode>, bc: &mut BytecodeBuilder, label: &mut u64, env: &mut Env, output: &DataLocation) -> (r: Result<Option<Value>, String>)
    requires
        old(bc).wf(),
        held_wf(*old(bc)),
        old(env).wf(),
        exprs_wf(exprs_view(args@)),
    ensures
        node_post(cif(exprs_view(args@), loc_view(*output), *old(label) as nat), r, *old(bc), *final(bc), *final(label)),
        env_post(*old(env), *final(env), cif(exprs_view(args@), loc_view(*output), *old(label) as nat).decls),
    decreases *args, 1nat,
{
    let ghost s0 = builder_state(*bc);
    let ghost out = loc_view(*output);
    let ghost env0 = *env;
    let ghost lab0 = *label as nat;
    let ghost vs = exprs_view(args@);
    proof { lemma_exprs_view_len(args@); }
    let mut acc: Ghost<Seq<CItem>> = Ghost(Seq::empty());
    assert(apply_from(s0, Seq::<CItem>::empty()) == s0);
    if args.len() != 3 {
        proof { lemma_env_same(*env); }
        return Err(String::from_str("Expected if statement to have 3 parameters!"));
    }
    if *label > u64::MAX - 2 {
        proof { lemma_env_same(*env); }
        return Err(String::from_str("too many labels"));
    }
    let fl = label_text(*label);
    let el = label_text(*label + 1);
    *label = *label + 2;
    proof {
        lemma_exprs_view_index(args@, 0);
        lemma_exprs_view_index(args@, 1);
        lemma_exprs_view_index(args@, 2);
        lemma_exprs_wf(vs, 0);
        lemma_exprs_wf(vs, 1);
        lemma_exprs_wf(vs, 2);
        assert(decreases_to!(*args => args@[0]));
        assert(decreases_to!(*args => args@[1]));
        assert(decreases_to!(*args => args@[2]));
    }
    let test_reg = DataLocation::Register(Register::Cmp);
    let ghost c0 = cnode(vs[0], loc_view(test_reg), lab0 + 2);
    let v0 = match compile_node(&args[0], bc, label, env, &test_reg) {
        Ok(v) => v,
        Err(m) => return Err(m),
    };
    proof { lemma_then(s0, acc@, c0.steps, s0, builder_state(*bc)); }
    acc = Ghost(acc@ + c0.steps);
    let ghost env1 = *env;
    acc = store_g(bc, v0, &test_reg, Ghost(s0), acc);
    acc = ref_g(bc, RefKind::JumpZero, fl.as_str(), Ghost(s0), acc);
    let ghost c1 = cnode(vs[1], out, c0.lab);
    let ghost before1 = builder_state(*bc);
    let v1 = match compile_node(&args[1], bc, label, env, output) {
        Ok(v) => v,
        Err(m) => {
            proof { lemma_env_chain(env0, env1, *env, c0.decls, c1.decls); }
            return Err(m);
        },
    };
    proof { lemma_then(s0, acc@, c1.steps, before1, builder_state(*bc)); lemma_env_chain(env0, env1, *env, c0.decls, c1.decls); }
    acc = Ghost(acc@ + c1.steps);
    let ghost env2 = *env;
    acc = store_g(bc, v1, output, Ghost(s0), acc);
    acc = ref_g(bc, RefKind::Jump, el.as_str(), Ghost(s0), acc);
    acc = label_g(bc, fl.as_str(), Ghost(s0), acc);
    let ghost c2 = cnode(vs[2], out, c1.lab);
    let ghost before2 = builder_state(*bc);
    let v2 = match compile_node(&args[2], bc, label, env, output) {
        Ok(v) => v,
        Err(m) => {
            proof { lemma_env_chain(env0, env2, *env, c0.decls + c1.decls, c2.decls); }
            return Err(m);
        },
    };
    proof { lemma_then(s0, acc@, c2.steps, before2, builder_state(*bc)); lemma_env_chain(env0, env2, *env, c0.decls + c1.decls, c2.decls); }
    acc = Ghost(acc@ + c2.steps);
    acc = store_g(bc, v2, output, Ghost(s0), acc);
    acc = label_g(bc, el.as_str(), Ghost(s0), acc);
    assert(acc@ =~= cif(vs, out, lab0).steps);
    Ok(None)
}

/// Compiles `sum(a, b, f)` (see `csum`).
#[verifier::rlimit(60)]
fn compile_sum(args: &Vec<ExprNode>, bc: &mut BytecodeBuilder, label: &mut u64, env: &mut Env, output: &DataLocation) -> (r: Result<Option<Value>, String>)
    requires
        old(bc).wf(),
        held_wf(*old(bc)),
        old(env).wf(),
        exprs_wf(exprs_view(args@)),
    ensures
        node_post(csum(exprs_view(args@), loc_view(*output), *old(label) as nat), r, *old(bc), *final(bc), *final(label)),
        env_post(*old(env), *final(env), csum(exprs_view(args@), loc_view(*output), *old(label) as nat).decls),
    decreases *args, 1nat,
{
    let ghost s0 = builder_state(*bc);
    let ghost out = loc_view(*output);
    let ghost env0 = *env;
    let ghost lab0 = *label as nat;
    let ghost vs = exprs_view(args@);
    proof { lemma_exprs_view_len(args@); }
    let mut acc: Ghost<Seq<CItem>> = Ghost(Seq::empty());
    assert(apply_from(s0, Seq::<CItem>::empty()) == s0);
    if args.len() != 3 {
        proof { lemma_env_same(*env); }
        return Err(String::from_str("Expected if statement to have 3 parameters!"));
    }
    proof {
        lemma_exprs_view_index(args@, 0);
        lemma_exprs_view_index(args@, 1);
        lemma_exprs_view_index(args@, 2);
        lemma_exprs_wf(vs, 0);
        lemma_exprs_wf(vs, 1);
        lemma_exprs_wf(vs, 2);
        assert(decreases_to!(*args => args@[0]));
        assert(decreases_to!(*args => args@[1]));
        assert(decreases_to!(*args => args@[2]));
    }
    let r1 = DataLocation::Register(Register::R1);
    let ghost c0 = cnode(vs[0], loc_view(r1), lab0);
    let v0 = match compile_node(&args[0], bc, label, env, &r1) {
        Ok(v) => v,
        Err(m) => return Err(m),
    };
    proof { lemma_then(s0, acc@, c0.steps, s0, builder_state(*bc)); }
    acc = Ghost(acc@ + c0.steps);
    let ghost env1 = *env;
    let first = match v0 {
        Some(x) => IArg::Value(x),
        None => IArg::Data(DataLocation::Register(Register::R1)),
    };
    acc = emit_g(bc, Instruction::Store(DataLocation::Dynamic(String::from_str("n")), first), Ghost(s0), acc);
    acc = emit_g(bc, Instruction::Push(IArg::Value(int_val(0))), Ghost(s0), acc);
    let ghost c1 = cnode(vs[1], loc_view(r1), c0.lab);
    let ghost before1 = builder_state(*bc);
    let v1 = match compile_node(&args[1], bc, label, env, &r1) {
        Ok(v) => v,
        Err(m) => {
            proof { lemma_env_chain(env0, env1, *env, c0.decls, c1.decls); }
            return Err(m);
        },
    };
    proof { lemma_then(s0, acc@, c1.steps, before1, builder_state(*bc)); lemma_env_chain(env0, env1, *env, c0.decls, c1.decls); }
    acc = Ghost(acc@ + c1.steps);
    let ghost env2 = *env;
    let last = match v1 {
        Some(x) => IArg::Value(x),
        None => IArg::Data(DataLocation::Register(Register::R1)),
    };
    acc = emit_g(bc, Instruction::Push(last), Ghost(s0), acc);
    if *label > u64::MAX - 2 {
        return Err(String::from_str("too many labels"));
    }
    let ls = label_text(*label);
    let le = label_text(*label + 1);
    *label = *label + 2;
    acc = label_g(bc, ls.as_str(), Ghost(s0), acc);
    acc = emit_g(bc, Instruction::Cmp(IArg::Data(DataLocation::Dynamic(String::from_str("n"))), IArg::Data(DataLocation::StackStackOffset(-1))), Ghost(s0), acc);
    acc = ref_g(bc, RefKind::JumpGreater, le.as_str(), Ghost(s0), acc);
    let ghost c2 = cnode(vs[2], loc_view(r1), c1.lab + 2);
    let ghost before2 = builder_state(*bc);
    let v2 = match compile_node(&args[2], bc, label, env, &r1) {
        Ok(v) => v,
        Err(m) => {
            proof { lemma_env_chain(env0, env2, *env, c0.decls + c1.decls, c2.decls); }
            return Err(m);
        },
    };
    proof { lemma_then(s0, acc@, c2.steps, before2, builder_state(*bc)); lemma_env_chain(env0, env2, *env, c0.decls + c1.decls, c2.decls); }
    acc = Ghost(acc@ + c2.steps);
    let term = match v2 {
        Some(x) => IArg::Value(x),
        None => IArg::Data(DataLocation::Register(Register::R1)),
    };
    acc = emit_g(bc, Instruction::Add(DataLocation::StackStackOffset(-2), term), Ghost(s0), acc);
    acc = emit_g(bc, Instruction::Add(DataLocation::Dynamic(String::from_str("n")), IArg::Value(int_val(1))), Ghost(s0), acc);
    acc = ref_g(bc, RefKind::Jump, ls.as_str(), Ghost(s0), acc);
    acc = label_g(bc, le.as_str(), Ghost(s0), acc);
    acc = emit_g(bc, Instruction::Store(DataLocation::Register(Register::Ret), IArg::Data(DataLocation::StackStackOffset(-2))), Ghost(s0), acc);
    acc = emit_g(bc, Instruction::PopN(2), Ghost(s0), acc);
    assert(acc@ =~= csum(vs, out, lab0).steps);
    Ok(None)
}

/// Compiles a call by name (see `cdyn`).
fn compile_dyn(s: &str, args: &Vec<ExprNode>, bc: &mut BytecodeBuilder, label: &mut u64, env: &mut Env, output: &DataLocation) -> (r: Result<Option<Value>, String>)
    requires
        old(bc).wf(),
        held_wf(*old(bc)),
        old(env).wf(),
        exprs_wf(exprs_view(args@)),
    ensures
        node_post(cdyn(s@, exprs_view(args@), loc_view(*output), *old(label) as nat), r, *old(bc), *final(bc), *final(label)),
        env_post(*old(env), *final(env), cdyn(s@, exprs_view(args@), loc_view(*output), *old(label) as nat).decls),
    decreases *args, 1nat,
{
    let ghost s0 = builder_state(*bc);
    let ghost out = loc_view(*output);
    let ghost env0 = *env;
    let ghost lab0 = *label as nat;
    let ghost vs = exprs_view(args@);
    proof { lemma_exprs_view_len(args@); }
    let mut acc: Ghost<Seq<CItem>> = Ghost(Seq::empty());
    assert(apply_from(s0, Seq::<CItem>::empty()) == s0);
    let mut i: usize = 0;
    proof { lemma_env_same(*env); }
    assert(vs.subrange(0, 0) =~= Seq::<crate::lambda_parser::expression::ExprV>::empty());
    while i < args.len()
        invariant
            i <= args@.len(),
            out == loc_view(*output),
            s0 == builder_state(*old(bc)),
            lab0 == *old(label) as nat,
            env0 == *old(env),
            vs == exprs_view(args@),
            vs.len() == args@.len(),
            exprs_wf(vs),
            bc.wf(),
            held_wf(*bc),
            cargs(vs.subrange(0, i as int), out, lab0).ok is Ok,
            builder_state(*bc) == apply_from(s0, cargs(vs.subrange(0, i as int), out, lab0).steps),
            *label == cargs(vs.subrange(0, i as int), out, lab0).lab,
            env_post(env0, *env, cargs(vs.subrange(0, i as int), out, lab0).decls),
        decreases args@.len() - i,
    {
        let ghost pre = cargs(vs.subrange(0, i as int), out, lab0);
        let ghost next = vs.subrange(0, i + 1);
        proof {
            lemma_exprs_view_index(args@, i as int);
            lemma_exprs_wf(vs, i as int);
            assert(decreases_to!(*args => args@[i as int]));
            assert(next.subrange(0, next.len() - 1) =~= vs.subrange(0, i as int));
            assert(next[next.len() - 1] == vs[i as int]);
        }
        let ghost envb = *env;
        let ghost cx = cnode(vs[i as int], out, pre.lab);
        let ghost before = builder_state(*bc);
        let v = match compile_node(&args[i], bc, label, env, output) {
            Ok(v) => v,
            Err(m) => {
                assert(cx.ok is Err);
                proof {
                    lemma_env_chain(env0, envb, *env, pre.decls, cx.decls);
                    lemma_cargs_err(vs, i + 1, out, lab0);
                }
                return Err(m);
            },
        };
        proof {
            lemma_env_chain(env0, envb, *env, pre.decls, cx.decls);
            lemma_apply_concat(s0, pre.steps, cx.steps);
        }
        let ghost acc1 = pre.steps + cx.steps;
        let arg = match v {
            Some(x) => IArg::Value(x),
            None => IArg::Data(output.duplicate()),
        };
        let g = emit_g(bc, Instruction::Push(arg), Ghost(s0), Ghost(acc1));
        assert(g@ =~= cargs(next, out, lab0).steps);
        i = i + 1;
    }
    assert(vs.subrange(0, args@.len() as int) =~= vs);
    let ghost ca = cargs(vs, out, lab0);
    acc = Ghost(ca.steps);
    acc = emit_g(bc, Instruction::CallDynamic(String::from_str(s)), Ghost(s0), acc);
    acc = emit_g(bc, Instruction::PopN(args.len()), Ghost(s0), acc);
    assert(acc@ =~= cdyn(s@, vs, out, lab0).steps);
    Ok(None)
}

/// Compiles an expression to bytecode, as a function (saving and restoring
/// the bottom register and returning) when `is_func`; definitions of
/// functions met on the way are compiled and added to the machine. The
/// code and its entry are those of `cexpr`, or its error; the functions
/// of `cexpr` are defined in order, even before an error, and nothing else
/// of the machine changes.
pub fn compile_expr(expr: &ExprNode, env: &mut Env, is_func: bool) -> (r: Result<Bytecode, String>)
    requires
        old(env).wf(),
        expr_wf(expr_view(*expr)),
    ensures
        match cexpr(expr_view(*expr), is_func).0 {
            Ok((c, entry)) => r matches Ok(b) && b.wf() && b.code@.map_values(|i: Instruction| instr_view(i)) == c
                && b.entry == entry,
            Err(m) => r matches Err(x) && x@ == m,
        },
        env_post(*old(env), *final(env), cexpr(expr_view(*expr), is_func).1),
    decreases *expr, 3nat,
{
    let mut builder = BytecodeBuilder::new();
    let ghost s0 = builder_state(builder);
    assert(s0.0 =~= Seq::<CItem>::empty());
    assert(s0 == crate::lambda::compile::empty_state());
    assert(held_wf(builder));
    let mut acc: Ghost<Seq<CItem>> = Ghost(Seq::empty());
    assert(apply_from(s0, Seq::<CItem>::empty()) == s0);
    if is_func {
        acc = emit_g(&mut builder, Instruction::Push(IArg::Data(DataLocation::Register(Register::Bottom))), Ghost(s0), acc);
        acc = emit_g(&mut builder, Instruction::Store(DataLocation::Register(Register::Bottom), IArg::Data(DataLocation::Register(Register::Stack))), Ghost(s0), acc);
    }
    assert(acc@ =~= crate::lambda::compile::prologue(is_func));
    let mut label: u64 = 0;
    let ret = DataLocation::Register(Register::Ret);
    let ghost c = cnode(expr_view(*expr), loc_view(ret), 0);
    let ghost before = builder_state(builder);
    let v = match compile_node(expr, &mut builder, &mut label, env, &ret) {
        Ok(v) => v,
        Err(m) => return Err(m),
    };
    proof { lemma_then(s0, acc@, c.steps, before, builder_state(builder)); }
    acc = Ghost(acc@ + c.steps);
    acc = store_g(&mut builder, v, &ret, Ghost(s0), acc);
    if is_func {
        acc = emit_g(&mut builder, Instruction::Pop(DataLocation::Register(Register::Bottom)), Ghost(s0), acc);
        acc = emit_g(&mut builder, Instruction::Return, Ghost(s0), acc);
    }
    assert(acc@ =~= crate::lambda::compile::whole_steps(c, is_func));
    let ghost pre = builder.pre();
    let ghost labels = builder.labels_spec();
    proof {
        lemma_cbuild(pre, labels);
        crate::lambda_jit::lambda_il::law_build_resolves(pre, labels);
    }
    let res = builder.build();
    match res {
        Ok(b) => {
            proof {
                assert forall|k: int| 0 <= k < b.code@.len() implies (#[trigger] b.code@[k]).wf() by {
                    assert(crate::lambda_jit::lambda_il::resolve(pre[k], labels) == Ok::<Instruction, Seq<char>>(b.code@[k]));
                }
            }
            Ok(b)
        },
        Err(m) => Err(m),
    }
}

/// Whether an expression can be handed to `compile_expr`: its numbers and
/// inline instructions are representable and its argument numbers leave
/// room for their stack offsets (see `expr_wf`).
pub fn expr_is_wf(e: &ExprNode) -> (r: bool)
    ensures
        r == expr_wf(expr_view(*e)),
    decreases *e, 1nat,
{
    match e {
        ExprNode::CallOperation { caller: _, args } => exprs_are_wf(args),
        ExprNode::CallExpr { caller, args } => {
            proof { assert(decreases_to!(*e => **caller)); }
            expr_is_wf(&**caller) && exprs_are_wf(args)
        },
        ExprNode::BinaryOperation { op: _, operands } => {
            proof {
                assert(decreases_to!(*e => operands.0));
                assert(decreases_to!(*e => operands.1));
            }
            expr_is_wf(&operands.0) && expr_is_wf(&operands.1)
        },
        ExprNode::UnaryOperation { op: _, operand } => {
            proof { assert(decreases_to!(*e => **operand)); }
            expr_is_wf(&**operand)
        },
        ExprNode::InlineInstruction(i) => {
            proof { lemma_instr_view_wf(*i); }
            i.is_wf()
        },
        ExprNode::Argument(u) => *u <= (isize::MAX as usize) - 2,
        ExprNode::Number(d) => Value::Num(*d).is_wf(),
        ExprNode::FunctionDecl { ident: _, expr } => {
            proof { assert(decreases_to!(*e => **expr)); }
            expr_is_wf(&**expr)
        },
        _ => true,
    }
}

fn exprs_are_wf(args: &Vec<ExprNode>) -> (r: bool)
    ensures
        r == exprs_wf(exprs_view(args@)),
    decreases *args, 0nat,
{
    let ghost vs = exprs_view(args@);
    proof { lemma_exprs_view_len(args@); }
    let mut i: usize = 0;
    assert(vs.subrange(0, 0) =~= Seq::<ExprV>::empty());
    while i < args.len()
        invariant
            i <= args@.len(),
            vs == exprs_view(args@),
            vs.len() == args@.len(),
            exprs_wf(vs.subrange(0, i as int)),
        decreases args@.len() - i,
    {
        proof {
            lemma_exprs_view_index(args@, i as int);
            assert(decreases_to!(*args => args@[i as int]));
            let next = vs.subrange(0, i + 1);
            assert(next.subrange(0, next.len() - 1) =~= vs.subrange(0, i as int));
            assert(next[next.len() - 1] == vs[i as int]);
        }
        if !expr_is_wf(&args[i]) {
            proof { lemma_exprs_wf_prefix(vs, i as int + 1); }
            return false;
        }
        i = i + 1;
    }
    assert(vs.subrange(0, args@.len() as int) =~= vs);
    true
}

proof fn lemma_exprs_wf_prefix(vs: Seq<ExprV>, j: int)
    requires
        0 <= j <= vs.len(),
        !exprs_wf(vs.subrange(0, j)),
    ensures
        !exprs_wf(vs),
    decreases vs.len() - j,
{
    if j < vs.len() {
        let next = vs.subrange(0, j + 1);
        assert(next.subrange(0, next.len() - 1) =~= vs.subrange(0, j));
        lemma_exprs_wf_prefix(vs, j + 1);
    } else {
        assert(vs.subrange(0, j) =~= vs);
    }
}

} // verus!
