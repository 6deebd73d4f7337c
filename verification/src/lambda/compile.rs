use vstd::prelude::*;
use crate::common::utils::chars::decimal;
use crate::lambda_jit::decimal::Dec;
use crate::lambda_jit::il_env::overflow_message;
use crate::lambda_jit::lambda_il::{BytecodeBuilder,
    ArgV, ArithOp, Bytecode, BytecodePrecomp, InstrV, Instruction, LocV, RefKind, Register, Value, instr_view, main_label,
    value_op,
};
use crate::lambda_parser::expression::ExprV;

verus! {

/// A step of compiled code: an instruction, a call or jump to a label by
/// name, or the declaration of a label at the current end of the code.
pub enum CItem {
    Instr(InstrV),
    Ref(RefKind, Seq<char>),
    Label(Seq<char>),
}

/// The outcome of compiling an expression: the value it stands for when it
/// is a constant (`Ok(Some(..))`), or that its code leaves its value in the
/// output location (`Ok(None)`), or an error; the steps of code, the next
/// free label number, and the functions defined (name, code, entry) in the
/// order they were defined, those before an error included.
pub struct CRes {
    pub ok: Result<Option<Value>, Seq<char>>,
    pub steps: Seq<CItem>,
    pub lab: nat,
    pub decls: Seq<(Seq<char>, Seq<InstrV>, usize)>,
}

pub open spec fn cok(v: Option<Value>, steps: Seq<CItem>, lab: nat, decls: Seq<(Seq<char>, Seq<InstrV>, usize)>) -> CRes {
    CRes { ok: Ok(v), steps, lab, decls }
}

pub open spec fn cerr(m: Seq<char>, lab: nat, decls: Seq<(Seq<char>, Seq<InstrV>, usize)>) -> CRes {
    CRes { ok: Err(m), steps: Seq::empty(), lab, decls }
}

pub open spec fn ins(i: InstrV) -> Seq<CItem> {
    seq![CItem::Instr(i)]
}

/// Storing a constant into the output, when there is one.
pub open spec fn store_const(v: Option<Value>, out: LocV) -> Seq<CItem> {
    match v {
        Some(x) => ins(InstrV::Store(out, ArgV::Value(x))),
        None => Seq::empty(),
    }
}

pub open spec fn int_value(m: int) -> Value {
    Value::Num(Dec { mantissa: m as i128, scale: 0 })
}

/// The name of the label numbered `n`.
pub open spec fn label_name(n: nat) -> Seq<char> {
    decimal(n)
}

pub open spec fn is_comparison(op: Seq<char>) -> bool {
    op == "<"@ || op == "<="@ || op == ">"@ || op == ">="@ || op == "=="@ || op == "!="@
}

/// The jump that a comparison operator takes when it holds.
pub open spec fn comparison_jump(op: Seq<char>) -> RefKind {
    if op == "<"@ {
        RefKind::JumpLess
    } else if op == ">"@ {
        RefKind::JumpGreater
    } else if op == "<="@ {
        RefKind::JumpLessEq
    } else if op == ">="@ {
        RefKind::JumpGreatEq
    } else if op == "=="@ {
        RefKind::JumpZero
    } else {
        RefKind::JumpNotZero
    }
}

/// The arithmetic instruction of an operator, if it is one.
pub open spec fn arith_instr(op: Seq<char>, out: LocV, rhs: ArgV) -> Option<InstrV> {
    if op == "+"@ {
        Some(InstrV::Add(out, rhs))
    } else if op == "-"@ {
        Some(InstrV::Sub(out, rhs))
    } else if op == "*"@ {
        Some(InstrV::Mul(out, rhs))
    } else if op == "/"@ {
        Some(InstrV::Div(out, rhs))
    } else {
        None
    }
}

/// Sets the output to 1 when the comparison jump `kind` is taken and to 0
/// otherwise.
pub open spec fn flag_steps(kind: RefKind, yes: Seq<char>, end: Seq<char>, out: LocV) -> Seq<CItem> {
    seq![
        CItem::Ref(kind, yes),
        CItem::Instr(InstrV::Store(out, ArgV::Value(int_value(0)))),
        CItem::Ref(RefKind::Jump, end),
        CItem::Label(yes),
        CItem::Instr(InstrV::Store(out, ArgV::Value(int_value(1)))),
        CItem::Label(end),
    ]
}

pub open spec fn if_args_message() -> Seq<char> {
    "Expected if statement to have 3 parameters!"@
}

pub open spec fn mul_args_message() -> Seq<char> {
    "Can only multiply expression with 1 argument when using call syntax"@
}

pub open spec fn labels_message() -> Seq<char> {
    "too many labels"@
}

pub open spec fn unsupported_message() -> Seq<char> {
    "cannot compile this expression"@
}

/// Whether two more labels can be numbered after `lab`.
pub open spec fn labels_left(lab: nat) -> bool {
    lab + 2 <= u64::MAX
}

/// The argument that stands for a compiled operand: the constant, or the
/// top of the stack, where the operand's value is pushed.
pub open spec fn operand_arg(v: Option<Value>) -> ArgV {
    match v {
        Some(x) => ArgV::Value(x),
        None => ArgV::Data(LocV::StackStackOffset(-1isize)),
    }
}

pub open spec fn operand_push(v: Option<Value>, out: LocV) -> Seq<CItem> {
    match v {
        Some(_) => Seq::empty(),
        None => ins(InstrV::Push(ArgV::Data(out))),
    }
}

pub open spec fn operand_pop(v: Option<Value>) -> Seq<CItem> {
    match v {
        Some(_) => Seq::empty(),
        None => ins(InstrV::PopN(1)),
    }
}

pub open spec fn var_n() -> LocV {
    LocV::Dynamic("n"@)
}

pub open spec fn is_digit(c: char) -> bool {
    '0' <= c && c <= '9'
}

/// Reading a number literal from the left: its digits as an integer, the
/// number of digits after the point and whether the point was met; `None`
/// at a character that is not an ASCII digit or the first point, or once
/// the digits stand for more than a decimal mantissa can hold.
pub open spec fn literal_parts(t: Seq<char>) -> Option<(int, nat, bool)>
    decreases t.len(),
{
    if t.len() == 0 {
        Some((0, 0, false))
    } else {
        match literal_parts(t.drop_last()) {
            None => None,
            Some((m, f, dot)) => {
                let c = t.last();
                if is_digit(c) {
                    let m2 = m * 10 + (c as int - '0' as int);
                    if m2 > crate::lambda_jit::decimal::MAX_MANTISSA {
                        None
                    } else {
                        Some((m2, if dot { f + 1 } else { f }, dot))
                    }
                } else if c == '.' && !dot {
                    Some((m, f, true))
                } else {
                    None
                }
            },
        }
    }
}

/// A number literal as a decimal: the digits as the mantissa and the digits
/// after the point as the scale, two more for a percentage (which is
/// hundredths); `None` where it is not such a literal or not representable.
pub open spec fn literal_dec(text: Seq<char>, flags: u8) -> Option<Dec> {
    match literal_parts(text) {
        Some((m, f, _)) => {
            let scale = f + if flags % 2 == 1 { 2nat } else { 0nat };
            if scale <= crate::lambda_jit::decimal::MAX_SCALE {
                Some(Dec { mantissa: m as i128, scale: scale as u32 })
            } else {
                None
            }
        },
        None => None,
    }
}

pub open spec fn literal_message(text: Seq<char>) -> Seq<char> {
    "Cannot compile number: "@ + text
}

/// Compiling an expression whose value goes to `out`, with labels numbered
/// from `lab` on.
pub open spec fn cnode(e: ExprV, out: LocV, lab: nat) -> CRes
    decreases e, 2nat,
{
    match e {
        ExprV::Inline(i) => cok(None, ins(i), lab, Seq::empty()),
        ExprV::Argument(u) => cok(
            None,
            ins(InstrV::Store(out, ArgV::Data(LocV::StackBottomOffset((-3 - u) as isize)))),
            lab,
            Seq::empty(),
        ),
        ExprV::Call(s, args) => cnamed(s, args, out, lab),
        ExprV::CallExpr(caller, args) => match *caller {
            ExprV::Ident(s) => cnamed(s, args, out, lab),
            _ => cmul(e, out, lab),
        },
        ExprV::Binary(..) => cbinary(e, out, lab),
        ExprV::Unary(..) => cunary(e, out, lab),
        ExprV::Ident(id) => cok(None, ins(InstrV::Store(out, ArgV::Data(LocV::Dynamic(id)))), lab, Seq::empty()),
        ExprV::Number(d) => cok(Some(Value::Num(d)), Seq::empty(), lab, Seq::empty()),
        ExprV::IntNum(i) => cok(Some(int_value(i as int)), Seq::empty(), lab, Seq::empty()),
        ExprV::Num(text, flags) => match literal_dec(text, flags) {
            Some(d) => cok(Some(Value::Num(d)), Seq::empty(), lab, Seq::empty()),
            None => cerr(literal_message(text), lab, Seq::empty()),
        },
        ExprV::Void => cok(None, Seq::empty(), lab, Seq::empty()),
        ExprV::Error(m) => cerr(m, lab, Seq::empty()),
        ExprV::FunctionDecl(..) => cdecl(e, lab),
        _ => cerr(unsupported_message(), lab, Seq::empty()),
    }
}

/// A call on an expression that is not a name multiplies it by its one
/// argument.
pub open spec fn cmul(e: ExprV, out: LocV, lab: nat) -> CRes
    decreases e, 1nat,
{
    match e {
        ExprV::CallExpr(caller, args) => if args.len() != 1 {
                cerr(mul_args_message(), lab, Seq::empty())
            } else {
                let r0 = cnode(args[0], out, lab);
                match r0.ok {
                    Err(_) => r0,
                    Ok(v0) => {
                        let r1 = cnode(*caller, out, r0.lab);
                        match r1.ok {
                            Err(m) => cerr(m, r1.lab, r0.decls + r1.decls),
                            Ok(v1) => cok(
                                None,
                                r0.steps + operand_push(v0, out) + r1.steps + store_const(v1, out) + ins(
                                    InstrV::Mul(out, operand_arg(v0)),
                                ) + operand_pop(v0),
                                r1.lab,
                                r0.decls + r1.decls,
                            ),
                        }
                    },
                }
            },
        _ => cerr(unsupported_message(), lab, Seq::empty()),
    }
}

/// A binary operation: the right operand first, then `=` to a name
/// assigns it, or the left operand and the operator.
pub open spec fn cbinary(e: ExprV, out: LocV, lab: nat) -> CRes
    decreases e, 1nat,
{
    match e {
        ExprV::Binary(op, lhs, rhs) => {
            let r0 = cnode(*rhs, out, lab);
            match r0.ok {
                Err(_) => r0,
                Ok(v0) => {
                    let s0 = r0.steps + operand_push(v0, out);
                    let rarg = operand_arg(v0);
                    if (*lhs matches ExprV::Ident(id)) && op == "="@ {
                        cok(
                            None,
                            s0 + ins(InstrV::Store(LocV::Dynamic(lhs->Ident_0), rarg)) + operand_pop(v0),
                            r0.lab,
                            r0.decls,
                        )
                    } else {
                        let r1 = cnode(*lhs, out, r0.lab);
                        match r1.ok {
                            Err(m) => cerr(m, r1.lab, r0.decls + r1.decls),
                            Ok(v1) => {
                                let s1 = s0 + r1.steps + store_const(v1, out) + (if is_comparison(op) {
                                    ins(InstrV::Cmp(ArgV::Data(out), rarg))
                                } else {
                                    Seq::empty()
                                });
                                match arith_instr(op, out, rarg) {
                                    Some(a) => cok(None, s1 + ins(a) + operand_pop(v0), r1.lab, r0.decls + r1.decls),
                                    None => if is_comparison(op) {
                                        if labels_left(r1.lab) {
                                            cok(
                                                None,
                                                s1 + flag_steps(
                                                    comparison_jump(op),
                                                    label_name(r1.lab),
                                                    label_name(r1.lab + 1),
                                                    out,
                                                ) + operand_pop(v0),
                                                r1.lab + 2,
                                                r0.decls + r1.decls,
                                            )
                                        } else {
                                            cerr(labels_message(), r1.lab, r0.decls + r1.decls)
                                        }
                                    } else {
                                        cerr("Unknown operator: "@ + op, r1.lab, r0.decls + r1.decls)
                                    },
                                }
                            },
                        }
                    }
                },
            }
        },
        _ => cerr(unsupported_message(), lab, Seq::empty()),
    }
}

/// A unary operation: `-` negates, `+` keeps the value.
pub open spec fn cunary(e: ExprV, out: LocV, lab: nat) -> CRes
    decreases e, 1nat,
{
    match e {
        ExprV::Unary(op, operand) => {
            let r = cnode(*operand, out, lab);
            match r.ok {
                Err(_) => r,
                Ok(Some(v)) => if op == "-"@ {
                    match value_op(ArithOp::Mul, v, int_value(-1)) {
                        Some(w) => cok(Some(w), r.steps, r.lab, r.decls),
                        None => cerr(overflow_message(), r.lab, r.decls),
                    }
                } else if op == "+"@ {
                    cok(Some(v), r.steps, r.lab, r.decls)
                } else {
                    cerr("Unknown unary operator: "@ + op, r.lab, r.decls)
                },
                Ok(None) => if op == "-"@ {
                    cok(None, r.steps + ins(InstrV::Mul(out, ArgV::Value(int_value(-1)))), r.lab, r.decls)
                } else if op == "+"@ {
                    cok(None, r.steps, r.lab, r.decls)
                } else {
                    cerr("Unknown unary operator: "@ + op, r.lab, r.decls)
                },
            }
        },
        _ => cerr(unsupported_message(), lab, Seq::empty()),
    }
}

/// A function definition compiles its body as a function and defines it.
pub open spec fn cdecl(e: ExprV, lab: nat) -> CRes
    decreases e, 1nat,
{
    match e {
        ExprV::FunctionDecl(id, body) => {
            let (res, ds) = cexpr(*body, true);
            match res {
                Ok((code, entry)) => cok(None, Seq::empty(), lab, ds.push((id, code, entry))),
                Err(m) => cerr(m, lab, ds),
            }
        },
        _ => cerr(unsupported_message(), lab, Seq::empty()),
    }
}

/// Compiling a call of the function named `s`: `if` and `sum` are built in,
/// any other name is called by name with the arguments pushed in order.
pub open spec fn cnamed(s: Seq<char>, args: Seq<ExprV>, out: LocV, lab: nat) -> CRes
    decreases args, 2nat,
{
    if s == "if"@ {
        cif(args, out, lab)
    } else if s == "sum"@ {
        csum(args, out, lab)
    } else {
        cdyn(s, args, out, lab)
    }
}

/// `if(c, a, b)`: the condition into the comparison register, a jump past
/// `a` when it is zero, and a jump past `b` after `a`.
pub open spec fn cif(args: Seq<ExprV>, out: LocV, lab: nat) -> CRes
    decreases args, 1nat,
{
        if args.len() != 3 {
            cerr(if_args_message(), lab, Seq::empty())
        } else if !labels_left(lab) {
            cerr(labels_message(), lab, Seq::empty())
        } else {
            let fl = label_name(lab);
            let el = label_name(lab + 1);
            let r0 = cnode(args[0], LocV::Register(Register::Cmp), lab + 2);
            match r0.ok {
                Err(_) => r0,
                Ok(v0) => {
                    let r1 = cnode(args[1], out, r0.lab);
                    match r1.ok {
                        Err(m) => cerr(m, r1.lab, r0.decls + r1.decls),
                        Ok(v1) => {
                            let r2 = cnode(args[2], out, r1.lab);
                            match r2.ok {
                                Err(m) => cerr(m, r2.lab, r0.decls + r1.decls + r2.decls),
                                Ok(v2) => cok(
                                    None,
                                    r0.steps + store_const(v0, LocV::Register(Register::Cmp)) + seq![
                                        CItem::Ref(RefKind::JumpZero, fl),
                                    ] + r1.steps + store_const(v1, out) + seq![
                                        CItem::Ref(RefKind::Jump, el),
                                        CItem::Label(fl),
                                    ] + r2.steps + store_const(v2, out) + seq![CItem::Label(el)],
                                    r2.lab,
                                    r0.decls + r1.decls + r2.decls,
                                ),
                            }
                        },
                    }
                },
            }
        }
}

/// `sum(a, b, f)`: the sum of `f` for `n` from `a` up to `b`.
pub open spec fn csum(args: Seq<ExprV>, out: LocV, lab: nat) -> CRes
    decreases args, 1nat,
{
        if args.len() != 3 {
            cerr(if_args_message(), lab, Seq::empty())
        } else {
            let r1 = LocV::Register(Register::R1);
            let a0 = cnode(args[0], r1, lab);
            match a0.ok {
                Err(_) => a0,
                Ok(v0) => {
                    let a1 = cnode(args[1], r1, a0.lab);
                    match a1.ok {
                        Err(m) => cerr(m, a1.lab, a0.decls + a1.decls),
                        Ok(v1) => if !labels_left(a1.lab) {
                            cerr(labels_message(), a1.lab, a0.decls + a1.decls)
                        } else {
                            let ls = label_name(a1.lab);
                            let le = label_name(a1.lab + 1);
                            let a2 = cnode(args[2], r1, a1.lab + 2);
                            match a2.ok {
                                Err(m) => cerr(m, a2.lab, a0.decls + a1.decls + a2.decls),
                                Ok(v2) => cok(
                                    None,
                                    a0.steps + ins(InstrV::Store(var_n(), match v0 {
                                        Some(x) => ArgV::Value(x),
                                        None => ArgV::Data(r1),
                                    })) + ins(InstrV::Push(ArgV::Value(int_value(0)))) + a1.steps + ins(
                                        InstrV::Push(match v1 {
                                            Some(x) => ArgV::Value(x),
                                            None => ArgV::Data(r1),
                                        }),
                                    ) + seq![
                                        CItem::Label(ls),
                                        CItem::Instr(InstrV::Cmp(ArgV::Data(var_n()), ArgV::Data(LocV::StackStackOffset(-1isize)))),
                                        CItem::Ref(RefKind::JumpGreater, le),
                                    ] + a2.steps + ins(InstrV::Add(LocV::StackStackOffset(-2isize), match v2 {
                                        Some(x) => ArgV::Value(x),
                                        None => ArgV::Data(r1),
                                    })) + seq![
                                        CItem::Instr(InstrV::Add(var_n(), ArgV::Value(int_value(1)))),
                                        CItem::Ref(RefKind::Jump, ls),
                                        CItem::Label(le),
                                        CItem::Instr(InstrV::Store(LocV::Register(Register::Ret), ArgV::Data(LocV::StackStackOffset(-2isize)))),
                                        CItem::Instr(InstrV::PopN(2)),
                                    ],
                                    a2.lab,
                                    a0.decls + a1.decls + a2.decls,
                                ),
                            }
                        },
                    }
                },
            }
        }
}

/// A call by name: the arguments pushed in order, the call, and the
/// arguments popped.
pub open spec fn cdyn(s: Seq<char>, args: Seq<ExprV>, out: LocV, lab: nat) -> CRes
    decreases args, 1nat,
{
        let r = cargs(args, out, lab);
        match r.ok {
            Err(_) => r,
            Ok(_) => cok(
                None,
                r.steps + seq![CItem::Instr(InstrV::CallDynamic(s)), CItem::Instr(InstrV::PopN(args.len() as usize))],
                r.lab,
                r.decls,
            ),
        }
}

/// Compiling the arguments of a call in order, pushing each value.
pub open spec fn cargs(args: Seq<ExprV>, out: LocV, lab: nat) -> CRes
    decreases args, 0nat,
{
    if args.len() == 0 {
        cok(None, Seq::empty(), lab, Seq::empty())
    } else {
        let r = cargs(args.subrange(0, args.len() - 1), out, lab);
        match r.ok {
            Err(_) => r,
            Ok(_) => {
                let x = cnode(args[args.len() - 1], out, r.lab);
                match x.ok {
                    Err(m) => cerr(m, x.lab, r.decls + x.decls),
                    Ok(v) => cok(
                        None,
                        r.steps + x.steps + ins(InstrV::Push(match v {
                            Some(c) => ArgV::Value(c),
                            None => ArgV::Data(out),
                        })),
                        x.lab,
                        r.decls + x.decls,
                    ),
                }
            },
        }
    }
}

/// The builder's held items, labels and entry after the steps, from the
/// state `st`.
pub open spec fn apply_from(st: (Seq<CItem>, Map<Seq<char>, usize>, usize), steps: Seq<CItem>) -> (
    Seq<CItem>,
    Map<Seq<char>, usize>,
    usize,
)
    decreases steps.len(),
{
    if steps.len() == 0 {
        st
    } else {
        let (items, labels, entry) = apply_from(st, steps.drop_last());
        match steps.last() {
            CItem::Label(n) => (
                items,
                labels.insert(n, items.len() as usize),
                if n == main_label() { items.len() as usize } else { entry },
            ),
            x => (items.push(x), labels, entry),
        }
    }
}

pub open spec fn ref_instr(kind: RefKind, t: usize) -> InstrV {
    match kind {
        RefKind::Call => InstrV::Call(t),
        RefKind::Jump => InstrV::Jump(t),
        RefKind::JumpZero => InstrV::JumpZ(t),
        RefKind::JumpNotZero => InstrV::JumpNZ(t),
        RefKind::JumpLess => InstrV::JumpL(t),
        RefKind::JumpGreater => InstrV::JumpG(t),
        RefKind::JumpLessEq => InstrV::JumpLE(t),
        RefKind::JumpGreatEq => InstrV::JumpGE(t),
    }
}

pub open spec fn cresolve(c: CItem, labels: Map<Seq<char>, usize>) -> Result<InstrV, Seq<char>> {
    match c {
        CItem::Instr(i) => Ok(i),
        CItem::Ref(kind, n) => if labels.contains_key(n) {
            Ok(ref_instr(kind, labels[n]))
        } else {
            Err(n)
        },
        CItem::Label(_) => Ok(InstrV::Nop),
    }
}

/// Resolving the held items in order: the instructions, or the first label
/// that is not declared.
pub open spec fn cbuild(items: Seq<CItem>, labels: Map<Seq<char>, usize>) -> Result<Seq<InstrV>, Seq<char>>
    decreases items.len(),
{
    if items.len() == 0 {
        Ok(Seq::empty())
    } else {
        match cbuild(items.drop_last(), labels) {
            Err(n) => Err(n),
            Ok(c) => match cresolve(items.last(), labels) {
                Ok(i) => Ok(c.push(i)),
                Err(n) => Err(n),
            },
        }
    }
}

pub open spec fn prologue(is_func: bool) -> Seq<CItem> {
    if is_func {
        seq![
            CItem::Instr(InstrV::Push(ArgV::Data(LocV::Register(Register::Bottom)))),
            CItem::Instr(InstrV::Store(LocV::Register(Register::Bottom), ArgV::Data(LocV::Register(Register::Stack)))),
        ]
    } else {
        Seq::empty()
    }
}

pub open spec fn epilogue(is_func: bool) -> Seq<CItem> {
    if is_func {
        seq![CItem::Instr(InstrV::Pop(LocV::Register(Register::Bottom))), CItem::Instr(InstrV::Return)]
    } else {
        Seq::empty()
    }
}

pub open spec fn empty_state() -> (Seq<CItem>, Map<Seq<char>, usize>, usize) {
    (Seq::empty(), Map::empty(), 0)
}

/// The steps of a whole compiled expression whose node compiled to `r`.
pub open spec fn whole_steps(r: CRes, is_func: bool) -> Seq<CItem> {
    prologue(is_func) + r.steps + store_const(r.ok->Ok_0, LocV::Register(Register::Ret)) + epilogue(is_func)
}

/// Compiling an expression to code: with `is_func`, as a function that
/// saves and restores the bottom register and returns. The result is the
/// code and its entry, or the error; then the functions defined on the way.
pub open spec fn cexpr(e: ExprV, is_func: bool) -> (Result<(Seq<InstrV>, usize), Seq<char>>, Seq<(Seq<char>, Seq<InstrV>, usize)>)
    decreases e, 3nat,
{
    let r = cnode(e, LocV::Register(Register::Ret), 0);
    match r.ok {
        Err(m) => (Err(m), r.decls),
        Ok(_) => {
            let (items, labels, entry) = apply_from(empty_state(), whole_steps(r, is_func));
            match cbuild(items, labels) {
                Ok(c) => (Ok((c, entry)), r.decls),
                Err(n) => (Err(crate::lambda_jit::lambda_il::missing_symbol_message(n)), r.decls),
            }
        },
    }
}

/// A builder's held items, labels and entry.
pub type BState = (Seq<CItem>, Map<Seq<char>, usize>, usize);

/// A held item of a builder as a step.
pub open spec fn item_view(p: BytecodePrecomp) -> CItem {
    match p {
        BytecodePrecomp::Instruction(i) => CItem::Instr(instr_view(i)),
        BytecodePrecomp::Call(s) => CItem::Ref(RefKind::Call, s@),
        BytecodePrecomp::Jump(s) => CItem::Ref(RefKind::Jump, s@),
        BytecodePrecomp::JumpZero(s) => CItem::Ref(RefKind::JumpZero, s@),
        BytecodePrecomp::JumpNotZero(s) => CItem::Ref(RefKind::JumpNotZero, s@),
        BytecodePrecomp::JumpLess(s) => CItem::Ref(RefKind::JumpLess, s@),
        BytecodePrecomp::JumpGreater(s) => CItem::Ref(RefKind::JumpGreater, s@),
        BytecodePrecomp::JumpLessEq(s) => CItem::Ref(RefKind::JumpLessEq, s@),
        BytecodePrecomp::JumpGreatEq(s) => CItem::Ref(RefKind::JumpGreatEq, s@),
    }
}

/// A builder's held items, labels and entry.
pub open spec fn builder_state(b: BytecodeBuilder) -> (Seq<CItem>, Map<Seq<char>, usize>, usize) {
    (b.pre().map_values(|p: BytecodePrecomp| item_view(p)), b.labels_spec(), b.entry_spec())
}

/// Every instruction the builder holds has representable numbers.
pub open spec fn held_wf(b: BytecodeBuilder) -> bool {
    forall|k: int| 0 <= k < b.pre().len() ==> (#[trigger] b.pre()[k] matches BytecodePrecomp::Instruction(i) ==> i.wf())
}

pub proof fn lemma_apply_concat(st: (Seq<CItem>, Map<Seq<char>, usize>, usize), a: Seq<CItem>, b: Seq<CItem>)
    ensures
        apply_from(st, a + b) == apply_from(apply_from(st, a), b),
    decreases b.len(),
{
    if b.len() == 0 {
        assert(a + b =~= a);
    } else {
        lemma_apply_concat(st, a, b.drop_last());
        assert((a + b).drop_last() =~= a + b.drop_last());
        assert((a + b).last() == b.last());
    }
}

pub proof fn lemma_apply_one(st: (Seq<CItem>, Map<Seq<char>, usize>, usize), x: CItem)
    ensures
        apply_from(st, seq![x]) == (match x {
            CItem::Label(n) => (
                st.0,
                st.1.insert(n, st.0.len() as usize),
                if n == main_label() { st.0.len() as usize } else { st.2 },
            ),
            _ => (st.0.push(x), st.1, st.2),
        }),
{
    let one = seq![x];
    assert(one.drop_last() =~= Seq::<CItem>::empty());
    assert(apply_from(st, one.drop_last()) == st);
    assert(one.last() == x);
}

pub proof fn lemma_resolve_view(p: BytecodePrecomp, labels: Map<Seq<char>, usize>)
    ensures
        match crate::lambda_jit::lambda_il::resolve(p, labels) {
            Ok(i) => cresolve(item_view(p), labels) == Ok::<InstrV, Seq<char>>(instr_view(i)),
            Err(n) => cresolve(item_view(p), labels) == Err::<InstrV, Seq<char>>(n),
        },
{
}

/// The builder's resolution and the steps' resolution agree.
pub proof fn lemma_cbuild(pre: Seq<BytecodePrecomp>, labels: Map<Seq<char>, usize>)
    ensures
        match crate::lambda_jit::lambda_il::spec_build(pre, labels) {
            Ok(c) => cbuild(pre.map_values(|p: BytecodePrecomp| item_view(p)), labels)
                == Ok::<Seq<InstrV>, Seq<char>>(c.map_values(|i: Instruction| instr_view(i))),
            Err(n) => cbuild(pre.map_values(|p: BytecodePrecomp| item_view(p)), labels) == Err::<Seq<InstrV>, Seq<char>>(n),
        },
    decreases pre.len(),
{
    let v = pre.map_values(|p: BytecodePrecomp| item_view(p));
    if pre.len() == 0 {
        assert(v =~= Seq::<CItem>::empty());
        assert(Seq::<Instruction>::empty().map_values(|i: Instruction| instr_view(i)) =~= Seq::<InstrV>::empty());
    } else {
        lemma_cbuild(pre.drop_last(), labels);
        lemma_resolve_view(pre.last(), labels);
        assert(v.drop_last() =~= pre.drop_last().map_values(|p: BytecodePrecomp| item_view(p)));
        assert(v.last() == item_view(pre.last()));
        match crate::lambda_jit::lambda_il::spec_build(pre.drop_last(), labels) {
            Ok(c) => {
                let cv = c.map_values(|i: Instruction| instr_view(i));
                match crate::lambda_jit::lambda_il::resolve(pre.last(), labels) {
                    Ok(i) => {
                        assert(c.push(i).map_values(|i: Instruction| instr_view(i)) =~= cv.push(instr_view(i)));
                    },
                    Err(n) => {},
                }
            },
            Err(n) => {},
        }
    }
}

/// The expression's numbers and inline instructions are representable, and
/// its argument numbers leave room for their stack offsets.
pub open spec fn expr_wf(e: ExprV) -> bool
    decreases e,
{
    match e {
        ExprV::Call(_, args) => exprs_wf(args),
        ExprV::CallExpr(c, args) => expr_wf(*c) && exprs_wf(args),
        ExprV::Binary(_, l, r) => expr_wf(*l) && expr_wf(*r),
        ExprV::Unary(_, x) => expr_wf(*x),
        ExprV::Inline(i) => i.wf(),
        ExprV::Argument(u) => u + 2 <= isize::MAX,
        ExprV::Number(d) => d.wf(),
        ExprV::FunctionDecl(_, b) => expr_wf(*b),
        _ => true,
    }
}

pub open spec fn exprs_wf(args: Seq<ExprV>) -> bool
    decreases args,
{
    if args.len() == 0 {
        true
    } else {
        exprs_wf(args.subrange(0, args.len() - 1)) && expr_wf(args[args.len() - 1])
    }
}

pub proof fn lemma_exprs_wf(args: Seq<ExprV>, k: int)
    requires
        exprs_wf(args),
        0 <= k < args.len(),
    ensures
        expr_wf(args[k]),
    decreases args.len(),
{
    if k < args.len() - 1 {
        lemma_exprs_wf(args.subrange(0, args.len() - 1), k);
    }
}

/// The functions of a machine with their code as characters.
pub open spec fn functions_view(fs: Map<Seq<char>, Bytecode>) -> Map<Seq<char>, (Seq<InstrV>, usize)> {
    fs.map_values(|b: Bytecode| (b.code@.map_values(|i: Instruction| instr_view(i)), b.entry))
}

/// The functions after defining those of `ds` in order.
pub open spec fn add_decls(
    m: Map<Seq<char>, (Seq<InstrV>, usize)>,
    ds: Seq<(Seq<char>, Seq<InstrV>, usize)>,
) -> Map<Seq<char>, (Seq<InstrV>, usize)>
    decreases ds.len(),
{
    if ds.len() == 0 {
        m
    } else {
        add_decls(m, ds.drop_last()).insert(ds.last().0, (ds.last().1, ds.last().2))
    }
}

pub proof fn lemma_add_decls_concat(
    m: Map<Seq<char>, (Seq<InstrV>, usize)>,
    a: Seq<(Seq<char>, Seq<InstrV>, usize)>,
    b: Seq<(Seq<char>, Seq<InstrV>, usize)>,
)
    ensures
        add_decls(m, a + b) == add_decls(add_decls(m, a), b),
    decreases b.len(),
{
    if b.len() == 0 {
        assert(a + b =~= a);
    } else {
        lemma_add_decls_concat(m, a, b.drop_last());
        assert((a + b).drop_last() =~= a + b.drop_last());
        assert((a + b).last() == b.last());
    }
}

/// Once the arguments before `j` fail to compile, so do all of them, with
/// the same outcome.
pub proof fn lemma_cargs_err(args: Seq<ExprV>, j: int, out: LocV, lab: nat)
    requires
        0 <= j <= args.len(),
        cargs(args.subrange(0, j), out, lab).ok is Err,
    ensures
        cargs(args, out, lab) == cargs(args.subrange(0, j), out, lab),
    decreases args.len() - j,
{
    if j < args.len() {
        let next = args.subrange(0, j + 1);
        assert(next.subrange(0, next.len() - 1) =~= args.subrange(0, j));
        lemma_cargs_err(args, j + 1, out, lab);
    } else {
        assert(args.subrange(0, j) =~= args);
    }
}

/// A declared label is numbered from `lo` up to below `hi`.
pub open spec fn label_in(c: CItem, lo: nat, hi: nat) -> bool {
    match c {
        CItem::Label(n) => exists|j: nat| lo <= j < hi && n == #[trigger] label_name(j),
        _ => true,
    }
}

/// Every label the steps declare is numbered from `lo` up to below `hi`.
pub open spec fn labels_within(steps: Seq<CItem>, lo: nat, hi: nat) -> bool {
    forall|k: int| 0 <= k < steps.len() ==> #[trigger] label_in(steps[k], lo, hi)
}

proof fn lemma_within_concat(a: Seq<CItem>, b: Seq<CItem>, lo: nat, hi: nat)
    requires
        labels_within(a, lo, hi),
        labels_within(b, lo, hi),
    ensures
        labels_within(a + b, lo, hi),
{
    assert forall|k: int| 0 <= k < (a + b).len() implies #[trigger] label_in((a + b)[k], lo, hi) by {
        if k < a.len() {
            assert((a + b)[k] == a[k]);
        } else {
            assert((a + b)[k] == b[k - a.len()]);
        }
    }
}

proof fn lemma_within_widen(a: Seq<CItem>, lo: nat, hi: nat, lo2: nat, hi2: nat)
    requires
        labels_within(a, lo, hi),
        lo2 <= lo,
        hi <= hi2,
    ensures
        labels_within(a, lo2, hi2),
{
    assert forall|k: int| 0 <= k < a.len() implies #[trigger] label_in(a[k], lo2, hi2) by {
        assert(label_in(a[k], lo, hi));
        if let CItem::Label(n) = a[k] {
            let j = choose|j: nat| lo <= j < hi && n == #[trigger] label_name(j);
            assert(lo2 <= j < hi2 && n == label_name(j));
        }
    }
}

proof fn lemma_within_no_labels(a: Seq<CItem>, lo: nat, hi: nat)
    requires
        forall|k: int| 0 <= k < a.len() ==> !(#[trigger] a[k] is Label),
    ensures
        labels_within(a, lo, hi),
{
    assert forall|k: int| 0 <= k < a.len() implies #[trigger] label_in(a[k], lo, hi) by {
        assert(!(a[k] is Label));
    }
}

proof fn lemma_within_empty(lo: nat, hi: nat)
    ensures
        labels_within(Seq::<CItem>::empty(), lo, hi),
{
}

proof fn lemma_within_ins(i: InstrV, lo: nat, hi: nat)
    ensures
        labels_within(ins(i), lo, hi),
{
    assert forall|k: int| 0 <= k < ins(i).len() implies #[trigger] label_in(ins(i)[k], lo, hi) by {
        assert(ins(i)[k] == CItem::Instr(i));
    }
}

proof fn lemma_within_consts(v: Option<Value>, out: LocV, lo: nat, hi: nat)
    ensures
        labels_within(store_const(v, out), lo, hi),
        labels_within(operand_push(v, out), lo, hi),
        labels_within(operand_pop(v), lo, hi),
{
    match v {
        Some(x) => {
            lemma_within_ins(InstrV::Store(out, ArgV::Value(x)), lo, hi);
        },
        None => {
            lemma_within_ins(InstrV::Push(ArgV::Data(out)), lo, hi);
            lemma_within_ins(InstrV::PopN(1), lo, hi);
        },
    }
}

proof fn lemma_within_label(n: nat, lo: nat, hi: nat)
    requires
        lo <= n < hi,
    ensures
        label_in(CItem::Label(label_name(n)), lo, hi),
{
    assert(lo <= n < hi && label_name(n) == label_name(n));
}

/// What a successful compilation numbers: labels from where it started up
/// to below where it ends.
pub open spec fn numbered(r: CRes, lab: nat) -> bool {
    r.ok is Ok ==> r.lab >= lab && labels_within(r.steps, lab, r.lab)
}

proof fn lemma_node_labels(e: ExprV, out: LocV, lab: nat)
    ensures
        numbered(cnode(e, out, lab), lab),
    decreases e, 2nat,
{
    match e {
        ExprV::Inline(i) => lemma_within_ins(i, lab, lab),
        ExprV::Argument(u) => lemma_within_ins(InstrV::Store(out, ArgV::Data(LocV::StackBottomOffset((-3 - u) as isize))), lab, lab),
        ExprV::Call(s, args) => lemma_named_labels(s, args, out, lab),
        ExprV::CallExpr(caller, args) => match *caller {
            ExprV::Ident(s) => lemma_named_labels(s, args, out, lab),
            _ => lemma_mul_labels(e, out, lab),
        },
        ExprV::Binary(..) => lemma_binary_labels(e, out, lab),
        ExprV::Unary(..) => lemma_unary_labels(e, out, lab),
        ExprV::Ident(id) => lemma_within_ins(InstrV::Store(out, ArgV::Data(LocV::Dynamic(id))), lab, lab),
        _ => {},
    }
}

proof fn lemma_mul_labels(e: ExprV, out: LocV, lab: nat)
    ensures
        numbered(cmul(e, out, lab), lab),
    decreases e, 1nat,
{
    if let ExprV::CallExpr(caller, args) = e {
        if args.len() == 1 {
            lemma_node_labels(args[0], out, lab);
            let r0 = cnode(args[0], out, lab);
            if r0.ok is Ok {
                let v0 = r0.ok->Ok_0;
                lemma_node_labels(*caller, out, r0.lab);
                let r1 = cnode(*caller, out, r0.lab);
                if r1.ok is Ok {
                    let v1 = r1.ok->Ok_0;
                    let hi = r1.lab;
                    lemma_within_widen(r0.steps, lab, r0.lab, lab, hi);
                    lemma_within_widen(r1.steps, r0.lab, r1.lab, lab, hi);
                    lemma_within_consts(v0, out, lab, hi);
                    lemma_within_consts(v1, out, lab, hi);
                    lemma_within_ins(InstrV::Mul(out, operand_arg(v0)), lab, hi);
                    let a = r0.steps + operand_push(v0, out);
                    lemma_within_concat(r0.steps, operand_push(v0, out), lab, hi);
                    lemma_within_concat(a, r1.steps, lab, hi);
                    lemma_within_concat(a + r1.steps, store_const(v1, out), lab, hi);
                    lemma_within_concat(a + r1.steps + store_const(v1, out), ins(InstrV::Mul(out, operand_arg(v0))), lab, hi);
                    lemma_within_concat(
                        a + r1.steps + store_const(v1, out) + ins(InstrV::Mul(out, operand_arg(v0))),
                        operand_pop(v0),
                        lab,
                        hi,
                    );
                }
            }
        }
    }
}

proof fn lemma_binary_labels(e: ExprV, out: LocV, lab: nat)
    ensures
        numbered(cbinary(e, out, lab), lab),
    decreases e, 1nat,
{
    if let ExprV::Binary(op, lhs, rhs) = e {
        lemma_node_labels(*rhs, out, lab);
        let r0 = cnode(*rhs, out, lab);
        if r0.ok is Ok {
            let v0 = r0.ok->Ok_0;
            let rarg = operand_arg(v0);
            let s0 = r0.steps + operand_push(v0, out);
            if (*lhs matches ExprV::Ident(id)) && op == "="@ {
                let hi = r0.lab;
                lemma_within_consts(v0, out, lab, hi);
                lemma_within_concat(r0.steps, operand_push(v0, out), lab, hi);
                lemma_within_ins(InstrV::Store(LocV::Dynamic(lhs->Ident_0), rarg), lab, hi);
                lemma_within_concat(s0, ins(InstrV::Store(LocV::Dynamic(lhs->Ident_0), rarg)), lab, hi);
                lemma_within_concat(s0 + ins(InstrV::Store(LocV::Dynamic(lhs->Ident_0), rarg)), operand_pop(v0), lab, hi);
            } else {
                lemma_node_labels(*lhs, out, r0.lab);
                let r1 = cnode(*lhs, out, r0.lab);
                if r1.ok is Ok {
                    let v1 = r1.ok->Ok_0;
                    let hi = r1.lab + 2;
                    lemma_within_widen(r0.steps, lab, r0.lab, lab, hi);
                    lemma_within_widen(r1.steps, r0.lab, r1.lab, lab, hi);
                    lemma_within_consts(v0, out, lab, hi);
                    lemma_within_consts(v1, out, lab, hi);
                    lemma_within_concat(r0.steps, operand_push(v0, out), lab, hi);
                    lemma_within_concat(s0, r1.steps, lab, hi);
                    lemma_within_concat(s0 + r1.steps, store_const(v1, out), lab, hi);
                    let test_items: Seq<CItem> = if is_comparison(op) { ins(InstrV::Cmp(ArgV::Data(out), rarg)) } else { Seq::empty() };
                    lemma_within_ins(InstrV::Cmp(ArgV::Data(out), rarg), lab, hi);
                    lemma_within_concat(s0 + r1.steps + store_const(v1, out), test_items, lab, hi);
                    let s1 = s0 + r1.steps + store_const(v1, out) + test_items;
                    match arith_instr(op, out, rarg) {
                        Some(a) => {
                            lemma_within_ins(a, lab, hi);
                            lemma_within_concat(s1, ins(a), lab, hi);
                            assert(labels_within(s1 + ins(a) + operand_pop(v0), lab, r1.lab)) by {
                                lemma_within_widen(r0.steps, lab, r0.lab, lab, r1.lab);
                                lemma_within_widen(r1.steps, r0.lab, r1.lab, lab, r1.lab);
                                lemma_within_consts(v0, out, lab, r1.lab);
                                lemma_within_consts(v1, out, lab, r1.lab);
                                lemma_within_concat(r0.steps, operand_push(v0, out), lab, r1.lab);
                                lemma_within_concat(s0, r1.steps, lab, r1.lab);
                                lemma_within_concat(s0 + r1.steps, store_const(v1, out), lab, r1.lab);
                                lemma_within_ins(InstrV::Cmp(ArgV::Data(out), rarg), lab, r1.lab);
                                lemma_within_concat(s0 + r1.steps + store_const(v1, out), test_items, lab, r1.lab);
                                lemma_within_ins(a, lab, r1.lab);
                                lemma_within_concat(s1, ins(a), lab, r1.lab);
                                lemma_within_concat(s1 + ins(a), operand_pop(v0), lab, r1.lab);
                            }
                        },
                        None => {
                            if is_comparison(op) && labels_left(r1.lab) {
                                let fs = flag_steps(comparison_jump(op), label_name(r1.lab), label_name(r1.lab + 1), out);
                                assert forall|k: int| 0 <= k < fs.len() implies #[trigger] label_in(fs[k], lab, hi) by {
                                    lemma_within_label(r1.lab, lab, hi);
                                    lemma_within_label((r1.lab + 1) as nat, lab, hi);
                                }
                                lemma_within_concat(s1, fs, lab, hi);
                                lemma_within_concat(s1 + fs, operand_pop(v0), lab, hi);
                            }
                        },
                    }
                }
            }
        }
    }
}

proof fn lemma_unary_labels(e: ExprV, out: LocV, lab: nat)
    ensures
        numbered(cunary(e, out, lab), lab),
    decreases e, 1nat,
{
    if let ExprV::Unary(op, x) = e {
        lemma_node_labels(*x, out, lab);
        let r = cnode(*x, out, lab);
        if r.ok is Ok {
            lemma_within_ins(InstrV::Mul(out, ArgV::Value(int_value(-1))), lab, r.lab);
            lemma_within_concat(r.steps, ins(InstrV::Mul(out, ArgV::Value(int_value(-1)))), lab, r.lab);
        }
    }
}

proof fn lemma_named_labels(s: Seq<char>, args: Seq<ExprV>, out: LocV, lab: nat)
    ensures
        numbered(cnamed(s, args, out, lab), lab),
    decreases args, 2nat,
{
    if s == "if"@ {
        lemma_if_labels(args, out, lab);
    } else if s == "sum"@ {
        lemma_sum_labels(args, out, lab);
    } else {
        lemma_dyn_labels(s, args, out, lab);
    }
}

/// The steps of `if(c, a, b)` from its parts.
pub open spec fn if_steps(r0: CRes, r1: CRes, r2: CRes, out: LocV, fl: Seq<char>, el: Seq<char>) -> Seq<CItem> {
    r0.steps + store_const(r0.ok->Ok_0, LocV::Register(Register::Cmp)) + seq![CItem::Ref(RefKind::JumpZero, fl)]
        + r1.steps + store_const(r1.ok->Ok_0, out) + seq![CItem::Ref(RefKind::Jump, el), CItem::Label(fl)]
        + r2.steps + store_const(r2.ok->Ok_0, out) + seq![CItem::Label(el)]
}

proof fn lemma_if_labels(args: Seq<ExprV>, out: LocV, lab: nat)
    ensures
        numbered(cif(args, out, lab), lab),
    decreases args, 1nat,
{
    if args.len() == 3 && labels_left(lab) {
        let fl = label_name(lab);
        let el = label_name(lab + 1);
        let testreg = LocV::Register(Register::Cmp);
        lemma_node_labels(args[0], testreg, lab + 2);
        let r0 = cnode(args[0], testreg, lab + 2);
        if r0.ok is Ok {
            lemma_node_labels(args[1], out, r0.lab);
            let r1 = cnode(args[1], out, r0.lab);
            if r1.ok is Ok {
                lemma_node_labels(args[2], out, r1.lab);
                let r2 = cnode(args[2], out, r1.lab);
                if r2.ok is Ok {
                    let hi = r2.lab;
                    lemma_within_widen(r0.steps, lab + 2, r0.lab, lab, hi);
                    lemma_within_widen(r1.steps, r0.lab, r1.lab, lab, hi);
                    lemma_within_widen(r2.steps, r1.lab, r2.lab, lab, hi);
                    lemma_within_consts(r0.ok->Ok_0, testreg, lab, hi);
                    lemma_within_consts(r1.ok->Ok_0, out, lab, hi);
                    lemma_within_consts(r2.ok->Ok_0, out, lab, hi);
                    let j1 = seq![CItem::Ref(RefKind::JumpZero, fl)];
                    let j2 = seq![CItem::Ref(RefKind::Jump, el), CItem::Label(fl)];
                    let j3 = seq![CItem::Label(el)];
                    assert forall|k: int| 0 <= k < j1.len() implies #[trigger] label_in(j1[k], lab, hi) by {}
                    assert forall|k: int| 0 <= k < j2.len() implies #[trigger] label_in(j2[k], lab, hi) by {
                        lemma_within_label(lab, lab, hi);
                    }
                    assert forall|k: int| 0 <= k < j3.len() implies #[trigger] label_in(j3[k], lab, hi) by {
                        lemma_within_label((lab + 1) as nat, lab, hi);
                    }
                    let a1 = r0.steps + store_const(r0.ok->Ok_0, testreg);
                    lemma_within_concat(r0.steps, store_const(r0.ok->Ok_0, testreg), lab, hi);
                    lemma_within_concat(a1, j1, lab, hi);
                    lemma_within_concat(a1 + j1, r1.steps, lab, hi);
                    lemma_within_concat(a1 + j1 + r1.steps, store_const(r1.ok->Ok_0, out), lab, hi);
                    let a2 = a1 + j1 + r1.steps + store_const(r1.ok->Ok_0, out);
                    lemma_within_concat(a2, j2, lab, hi);
                    lemma_within_concat(a2 + j2, r2.steps, lab, hi);
                    lemma_within_concat(a2 + j2 + r2.steps, store_const(r2.ok->Ok_0, out), lab, hi);
                    lemma_within_concat(a2 + j2 + r2.steps + store_const(r2.ok->Ok_0, out), j3, lab, hi);
                }
            }
        }
    }
}

proof fn lemma_sum_labels(args: Seq<ExprV>, out: LocV, lab: nat)
    ensures
        numbered(csum(args, out, lab), lab),
    decreases args, 1nat,
{
    if args.len() == 3 {
        let r1 = LocV::Register(Register::R1);
        lemma_node_labels(args[0], r1, lab);
        let a0 = cnode(args[0], r1, lab);
        if a0.ok is Ok {
            lemma_node_labels(args[1], r1, a0.lab);
            let a1 = cnode(args[1], r1, a0.lab);
            if a1.ok is Ok && labels_left(a1.lab) {
                lemma_node_labels(args[2], r1, a1.lab + 2);
                let a2 = cnode(args[2], r1, a1.lab + 2);
                if a2.ok is Ok {
                    let hi = a2.lab;
                    let r = csum(args, out, lab);
                    lemma_within_widen(a0.steps, lab, a0.lab, lab, hi);
                    lemma_within_widen(a1.steps, a0.lab, a1.lab, lab, hi);
                    lemma_within_widen(a2.steps, a1.lab + 2, a2.lab, lab, hi);
                    assert forall|k: int| 0 <= k < r.steps.len() implies #[trigger] label_in(r.steps[k], lab, hi) by {
                        lemma_within_label(a1.lab, lab, hi);
                        lemma_within_label((a1.lab + 1) as nat, lab, hi);
                        let p0 = a0.steps.len();
                        let p1 = p0 + 2 + a1.steps.len() + 1 + 3;
                        if k < p0 {
                            assert(r.steps[k] == a0.steps[k]);
                            assert(label_in(a0.steps[k], lab, hi));
                        } else if p0 + 2 <= k < p0 + 2 + a1.steps.len() {
                            assert(r.steps[k] == a1.steps[k - p0 - 2]);
                            assert(label_in(a1.steps[k - p0 - 2], lab, hi));
                        } else if p1 <= k < p1 + a2.steps.len() {
                            assert(r.steps[k] == a2.steps[k - p1]);
                            assert(label_in(a2.steps[k - p1], lab, hi));
                        }
                    }
                }
            }
        }
    }
}

proof fn lemma_dyn_labels(s: Seq<char>, args: Seq<ExprV>, out: LocV, lab: nat)
    ensures
        numbered(cdyn(s, args, out, lab), lab),
    decreases args, 1nat,
{
    lemma_cargs_labels(args, out, lab);
    let r = cargs(args, out, lab);
    if r.ok is Ok {
        let t = seq![CItem::Instr(InstrV::CallDynamic(s)), CItem::Instr(InstrV::PopN(args.len() as usize))];
        assert forall|k: int| 0 <= k < t.len() implies #[trigger] label_in(t[k], lab, r.lab) by {}
        lemma_within_concat(r.steps, t, lab, r.lab);
    }
}

proof fn lemma_cargs_labels(args: Seq<ExprV>, out: LocV, lab: nat)
    ensures
        numbered(cargs(args, out, lab), lab),
    decreases args, 0nat,
{
    if args.len() > 0 {
        lemma_cargs_labels(args.subrange(0, args.len() - 1), out, lab);
        let r = cargs(args.subrange(0, args.len() - 1), out, lab);
        if r.ok is Ok {
            lemma_node_labels(args[args.len() - 1], out, r.lab);
            let x = cnode(args[args.len() - 1], out, r.lab);
            if x.ok is Ok {
                let v = x.ok->Ok_0;
                let p = ins(InstrV::Push(match v {
                    Some(c) => ArgV::Value(c),
                    None => ArgV::Data(out),
                }));
                lemma_within_widen(r.steps, lab, r.lab, lab, x.lab);
                lemma_within_widen(x.steps, r.lab, x.lab, lab, x.lab);
                lemma_within_concat(r.steps, x.steps, lab, x.lab);
                assert forall|k: int| 0 <= k < p.len() implies #[trigger] label_in(p[k], lab, x.lab) by {}
                lemma_within_concat(r.steps + x.steps, p, lab, x.lab);
            }
        }
    }
}

proof fn lemma_decimal_len(n: nat)
    ensures
        decimal(n).len() >= 1,
        n >= 10 ==> decimal(n).len() >= 2,
    decreases n,
{
    if n >= 10 {
        lemma_decimal_len(n / 10);
    }
}

proof fn lemma_digit_char_injective(a: nat, b: nat)
    requires
        a < 10,
        b < 10,
        crate::common::utils::chars::digit_char(a) == crate::common::utils::chars::digit_char(b),
    ensures
        a == b,
{
}

/// Different numbers are written differently.
proof fn lemma_decimal_injective(a: nat, b: nat)
    requires
        decimal(a) == decimal(b),
    ensures
        a == b,
    decreases a,
{
    lemma_decimal_len(a);
    lemma_decimal_len(b);
    if a < 10 && b < 10 {
        assert(decimal(a) == seq![crate::common::utils::chars::digit_char(a)]);
        assert(decimal(b) == seq![crate::common::utils::chars::digit_char(b)]);
        let x = crate::common::utils::chars::digit_char(a);
        let y = crate::common::utils::chars::digit_char(b);
        assert(seq![x][0] == x);
        assert(seq![y][0] == y);
        assert(x == y);
        lemma_digit_char_injective(a, b);
    } else if a >= 10 && b >= 10 {
        let da = decimal(a);
        let db = decimal(b);
        assert(da.last() == db.last());
        lemma_digit_char_injective(a % 10, b % 10);
        assert(da.drop_last() =~= decimal(a / 10));
        assert(db.drop_last() =~= decimal(b / 10));
        lemma_decimal_injective(a / 10, b / 10);
    } else {
        assert(decimal(a).len() != decimal(b).len());
    }
}

proof fn lemma_not_declared(steps: Seq<CItem>, lo: nat, hi: nat, n: nat)
    requires
        labels_within(steps, lo, hi),
        n < lo,
    ensures
        forall|k: int| 0 <= k < steps.len() ==> steps[k] != CItem::Label(label_name(n)),
{
    assert forall|k: int| 0 <= k < steps.len() implies steps[k] != CItem::Label(label_name(n)) by {
        assert(label_in(steps[k], lo, hi));
        if steps[k] == CItem::Label(label_name(n)) {
            let j = choose|j: nat| lo <= j < hi && label_name(n) == #[trigger] label_name(j);
            lemma_decimal_injective(n, j);
        }
    }
}

/// `if(c, a, b)` compiles to: the code of `c` leaving its value in the
/// comparison register, a jump to a label `fl` taken when that value is
/// zero, the code of `a`, a jump to a label `el`, the declaration of `fl`,
/// the code of `b`, and the declaration of `el`. The labels `fl` and `el`
/// differ, and no code of `c`, `a` or `b` declares either. So, run, `c`
/// runs first; the jump after it (`law_conditional_jumps`) skips `a`
/// exactly when `c` gave zero and goes on into `a` otherwise; and the jump
/// after `a` skips `b`: only the branch that `c` selects runs.
pub proof fn law_if_branches(args: Seq<ExprV>, out: LocV, lab: nat)
    requires
        args.len() == 3,
        cif(args, out, lab).ok is Ok,
    ensures
        ({
            let fl = label_name(lab);
            let el = label_name(lab + 1);
            let r0 = cnode(args[0], LocV::Register(Register::Cmp), lab + 2);
            let r1 = cnode(args[1], out, r0.lab);
            let r2 = cnode(args[2], out, r1.lab);
            &&& r0.ok is Ok && r1.ok is Ok && r2.ok is Ok
            &&& cif(args, out, lab).steps == if_steps(r0, r1, r2, out, fl, el)
            &&& fl != el
            &&& forall|k: int| 0 <= k < r0.steps.len() ==> r0.steps[k] != CItem::Label(fl) && r0.steps[k] != CItem::Label(el)
            &&& forall|k: int| 0 <= k < r1.steps.len() ==> r1.steps[k] != CItem::Label(fl) && r1.steps[k] != CItem::Label(el)
            &&& forall|k: int| 0 <= k < r2.steps.len() ==> r2.steps[k] != CItem::Label(fl) && r2.steps[k] != CItem::Label(el)
        }),
{
    let testreg = LocV::Register(Register::Cmp);
    let r0 = cnode(args[0], testreg, lab + 2);
    lemma_node_labels(args[0], testreg, lab + 2);
    let r1 = cnode(args[1], out, r0.lab);
    lemma_node_labels(args[1], out, r0.lab);
    let r2 = cnode(args[2], out, r1.lab);
    lemma_node_labels(args[2], out, r1.lab);
    lemma_not_declared(r0.steps, lab + 2, r0.lab, lab);
    lemma_not_declared(r0.steps, lab + 2, r0.lab, (lab + 1) as nat);
    lemma_not_declared(r1.steps, r0.lab, r1.lab, lab);
    lemma_not_declared(r1.steps, r0.lab, r1.lab, (lab + 1) as nat);
    lemma_not_declared(r2.steps, r1.lab, r2.lab, lab);
    lemma_not_declared(r2.steps, r1.lab, r2.lab, (lab + 1) as nat);
    if label_name(lab) == label_name(lab + 1) {
        lemma_decimal_injective(lab, (lab + 1) as nat);
    }
}

} // verus!

verus! {

/// What a comparison operator says of two numbers `x` and `y`.
pub open spec fn compares(op: Seq<char>, x: int, y: int) -> bool {
    if op == "<"@ {
        x < y
    } else if op == ">"@ {
        x > y
    } else if op == "<="@ {
        x <= y
    } else if op == ">="@ {
        x >= y
    } else if op == "=="@ {
        x == y
    } else {
        x != y
    }
}

/// The jump compiled for a comparison operator, once its label resolves,
/// is taken exactly when the comparison holds of the two operands whose
/// difference the comparison register holds (as `Cmp` leaves it, see
/// `law_compare_is_difference`): `a op b`, read as numbers whatever their
/// scales. The flag code then stores 1 exactly when the comparison holds.
pub proof fn law_comparison_jump_taken(
    op: Seq<char>,
    m: crate::lambda_jit::il_env::Machine,
    a: Dec,
    b: Dec,
    p: BytecodePrecomp,
    name: Seq<char>,
    labels: Map<Seq<char>, usize>,
)
    requires
        is_comparison(op),
        m.pc < usize::MAX,
        crate::lambda_jit::decimal::is_difference(m.compare, a, b),
        crate::lambda_jit::lambda_il::refers(p, name, comparison_jump(op)),
        labels.contains_key(name),
    ensures
        crate::lambda_jit::lambda_il::resolve(p, labels) is Ok,
        m.exec(crate::lambda_jit::lambda_il::resolve(p, labels)->Ok_0) == (
            crate::lambda_jit::il_env::after_jump(
                m,
                compares(
                    op,
                    a.mantissa * crate::lambda_jit::decimal::pow10(b.scale as nat),
                    b.mantissa * crate::lambda_jit::decimal::pow10(a.scale as nat),
                ),
                labels[name],
            ),
            crate::lambda_jit::il_env::RunState::Running,
        ),
{
    reveal_strlit("<");
    reveal_strlit(">");
    reveal_strlit("<=");
    reveal_strlit(">=");
    reveal_strlit("==");
    reveal_strlit("!=");
    assert("<"@ != ">"@ && "<"@ != "<="@ && "<"@ != ">="@ && "<"@ != "=="@ && "<"@ != "!="@) by {
        assert("<"@[0] != ">"@[0] && "<"@.len() != "<="@.len() && "<"@.len() != ">="@.len());
        assert("<"@.len() != "=="@.len() && "<"@.len() != "!="@.len());
    }
    assert(">"@ != "<="@ && ">"@ != ">="@ && ">"@ != "=="@ && ">"@ != "!="@) by {
        assert(">"@.len() != "<="@.len() && ">"@.len() != ">="@.len());
        assert(">"@.len() != "=="@.len() && ">"@.len() != "!="@.len());
    }
    assert("<="@ != ">="@ && "<="@ != "=="@ && "<="@ != "!="@ && ">="@ != "=="@ && ">="@ != "!="@ && "=="@ != "!="@) by {
        assert("<="@[0] != ">="@[0] && "<="@[0] != "=="@[0] && "<="@[0] != "!="@[0]);
        assert(">="@[0] != "=="@[0] && ">="@[0] != "!="@[0] && "=="@[0] != "!="@[0]);
    }
    crate::lambda_jit::decimal::lemma_difference_sign(m.compare, a, b);
    crate::lambda_jit::il_env::law_conditional_jumps(m, labels[name]);
}

} // verus!
