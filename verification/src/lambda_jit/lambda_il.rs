use vstd::prelude::*;
use crate::common::utils::labels::LabelTable;
use crate::common::utils::chars::{append_decimal, append_signed_decimal, decimal, signed_decimal};
use crate::lambda_jit::decimal::{Dec, decimal_display, as_dec, checked_sum, checked_difference, checked_product, checked_quotient,
    decimal_checked_sum, decimal_checked_difference, decimal_checked_product, decimal_checked_quotient};

verus! {

/// The registers of the bytecode machine.
#[derive(Clone, Copy, PartialEq, Eq, Structural, Debug)]
pub enum Register {
    Bottom,
    Stack,
    Ret,
    Pc,
    Cmp,
    R1,
    R2,
    R3,
    R4,
    R5,
}

impl Register {
    /// The register's name as the machine prints it.
    pub fn name(&self) -> (r: &'static str)
        ensures
            r@ == register_name(*self),
    {
        proof { reveal_strlit("BOTTOM"); reveal_strlit("STACK"); reveal_strlit("RET"); reveal_strlit("PC");
            reveal_strlit("CMP"); reveal_strlit("R1"); reveal_strlit("R2"); reveal_strlit("R3");
            reveal_strlit("R4"); reveal_strlit("R5"); }
        match self {
            Register::Bottom => "BOTTOM",
            Register::Stack => "STACK",
            Register::Ret => "RET",
            Register::Pc => "PC",
            Register::Cmp => "CMP",
            Register::R1 => "R1",
            Register::R2 => "R2",
            Register::R3 => "R3",
            Register::R4 => "R4",
            Register::R5 => "R5",
        }
    }
}

pub open spec fn register_name(r: Register) -> Seq<char> {
    match r {
        Register::Bottom => seq!['B', 'O', 'T', 'T', 'O', 'M'],
        Register::Stack => seq!['S', 'T', 'A', 'C', 'K'],
        Register::Ret => seq!['R', 'E', 'T'],
        Register::Pc => seq!['P', 'C'],
        Register::Cmp => seq!['C', 'M', 'P'],
        Register::R1 => seq!['R', '1'],
        Register::R2 => seq!['R', '2'],
        Register::R3 => seq!['R', '3'],
        Register::R4 => seq!['R', '4'],
        Register::R5 => seq!['R', '5'],
    }
}

/// Where an instruction reads or writes a value.
#[derive(Debug, PartialEq)]
pub enum DataLocation {
    /// A register.
    Register(Register),
    /// An absolute stack slot.
    StackOffset(usize),
    /// The stack slot at the pointer in a register plus an offset.
    StackRegOffset(Register, isize),
    /// The stack slot at the bottom register plus an offset.
    StackBottomOffset(isize),
    /// The stack slot at the stack register plus an offset.
    StackStackOffset(isize),
    /// A named variable.
    Dynamic(String),
}

impl DataLocation {
    pub fn duplicate(&self) -> (r: DataLocation)
        ensures
            r == *self,
    {
        match self {
            DataLocation::Register(r) => DataLocation::Register(*r),
            DataLocation::StackOffset(o) => DataLocation::StackOffset(*o),
            DataLocation::StackRegOffset(r, o) => DataLocation::StackRegOffset(*r, *o),
            DataLocation::StackBottomOffset(o) => DataLocation::StackBottomOffset(*o),
            DataLocation::StackStackOffset(o) => DataLocation::StackStackOffset(*o),
            DataLocation::Dynamic(s) => DataLocation::Dynamic(s.clone()),
        }
    }
}

/// A value of the machine.
#[derive(Clone, Copy, PartialEq, Debug)]
pub enum Value {
    Num(Dec),
    Offset(isize),
    Pointer(usize),
    Void,
}

impl Value {
    /// Numbers are representable decimals.
    pub open spec fn wf(self) -> bool {
        self matches Value::Num(d) ==> d.wf()
    }

    /// The value as a decimal: numbers as themselves, offsets and pointers
    /// as integers, `Void` as zero.
    pub open spec fn val_spec(self) -> Dec {
        match self {
            Value::Num(n) => n,
            Value::Offset(o) => Dec { mantissa: o as i128, scale: 0 },
            Value::Pointer(p) => Dec { mantissa: p as i128, scale: 0 },
            Value::Void => Dec { mantissa: 0, scale: 0 },
        }
    }

    /// The value as a stack address; a number without one (negative or too
    /// large) has none.
    pub open spec fn pointer_spec(self) -> Option<usize> {
        match self {
            Value::Num(n) => n.to_usize_spec(),
            Value::Offset(o) => Some(o as usize),
            Value::Pointer(p) => Some(p),
            Value::Void => Some(0),
        }
    }

    pub fn num(val: Dec) -> (r: Value)
        ensures
            r == Value::Num(val),
    {
        Value::Num(val)
    }

    /// The value as a stack address; a number must have one.
    pub fn to_pointer(self) -> (r: usize)
        requires
            self.wf(),
            self.pointer_spec() is Some,
        ensures
            r == self.pointer_spec()->Some_0,
    {
        match self {
            Value::Num(n) => match n.to_usize() {
                Some(u) => u,
                None => { proof { assert(false); } unreached() },
            },
            Value::Offset(o) => o as usize,
            Value::Pointer(p) => p,
            Value::Void => 0,
        }
    }

    /// The value as a stack address, `None` where a number has none.
    pub fn try_to_pointer(self) -> (r: Option<usize>)
        requires
            self.wf(),
        ensures
            r == self.pointer_spec(),
    {
        match self {
            Value::Num(n) => n.to_usize(),
            Value::Offset(o) => Some(o as usize),
            Value::Pointer(p) => Some(p),
            Value::Void => Some(0),
        }
    }

    /// The value as a decimal.
    pub fn to_number(self) -> (r: Dec)
        ensures
            r == self.val_spec(),
    {
        self.val()
    }

    /// The value as a decimal.
    pub fn val(&self) -> (r: Dec)
        ensures
            r == self.val_spec(),
    {
        match self {
            Value::Num(n) => *n,
            Value::Offset(i) => Dec { mantissa: *i as i128, scale: 0 },
            Value::Pointer(u) => Dec { mantissa: *u as i128, scale: 0 },
            Value::Void => Dec { mantissa: 0, scale: 0 },
        }
    }

    /// The value written out: a number as `rust_decimal` writes it, an
    /// offset or a pointer in decimal, and `void`.
    pub fn text(&self) -> (r: String)
        requires
            self.wf(),
        ensures
            r@ == value_text(*self),
    {
        match self {
            Value::Num(n) => n.to_text(),
            Value::Offset(o) => {
                let mut s = String::new();
                append_signed_decimal(&mut s, *o as i128);
                s
            },
            Value::Pointer(p) => {
                let mut s = String::new();
                append_decimal(&mut s, *p as u128);
                s
            },
            Value::Void => {
                proof { reveal_strlit("void"); }
                let s = String::from_str("void");
                s
            },
        }
    }

    /// The sum of two numbers; any other pair gives `Void`. `None` where the
    /// decimal sum overflows.
    pub fn add(self, rhs: Value) -> (r: Option<Value>)
        requires
            self.wf(),
            rhs.wf(),
        ensures
            r == value_op(ArithOp::Add, self, rhs),
            r matches Some(v) ==> v.wf(),
    {
        match (self, rhs) {
            (Value::Num(a), Value::Num(b)) => match checked_sum(a, b) {
                Some(s) => Some(Value::Num(s)),
                None => None,
            },
            _ => Some(Value::Void),
        }
    }

    /// The difference of two numbers; any other pair gives `Void`.
    pub fn sub(self, rhs: Value) -> (r: Option<Value>)
        requires
            self.wf(),
            rhs.wf(),
        ensures
            r == value_op(ArithOp::Sub, self, rhs),
            r matches Some(v) ==> v.wf(),
    {
        match (self, rhs) {
            (Value::Num(a), Value::Num(b)) => match checked_difference(a, b) {
                Some(s) => Some(Value::Num(s)),
                None => None,
            },
            _ => Some(Value::Void),
        }
    }

    /// The product of two numbers; any other pair gives `Void`.
    pub fn mul(self, rhs: Value) -> (r: Option<Value>)
        requires
            self.wf(),
            rhs.wf(),
        ensures
            r == value_op(ArithOp::Mul, self, rhs),
            r matches Some(v) ==> v.wf(),
    {
        match (self, rhs) {
            (Value::Num(a), Value::Num(b)) => match checked_product(a, b) {
                Some(s) => Some(Value::Num(s)),
                None => None,
            },
            _ => Some(Value::Void),
        }
    }

    /// The quotient of two numbers; any other pair gives `Void`. `None`
    /// where the divisor is zero or the quotient overflows.
    pub fn div(self, rhs: Value) -> (r: Option<Value>)
        requires
            self.wf(),
            rhs.wf(),
        ensures
            r == value_op(ArithOp::Div, self, rhs),
            r matches Some(v) ==> v.wf(),
    {
        match (self, rhs) {
            (Value::Num(a), Value::Num(b)) => match checked_quotient(a, b) {
                Some(s) => Some(Value::Num(s)),
                None => None,
            },
            _ => Some(Value::Void),
        }
    }
}

/// The four arithmetic operations of the machine.
#[derive(Clone, Copy, PartialEq, Eq, Structural, Debug)]
pub enum ArithOp {
    Add,
    Sub,
    Mul,
    Div,
}

/// An operation on two decimals as `rust_decimal` computes it; `None` on
/// overflow or division by zero.
/// How a value is written (see `Value::text`).
pub open spec fn value_text(v: Value) -> Seq<char> {
    match v {
        Value::Num(d) => decimal_display(d.mantissa as int, d.scale as nat),
        Value::Offset(o) => signed_decimal(o as int),
        Value::Pointer(p) => decimal(p as nat),
        Value::Void => seq!['v', 'o', 'i', 'd'],
    }
}

pub open spec fn dec_op(op: ArithOp, a: Dec, b: Dec) -> Option<Dec> {
    match op {
        ArithOp::Add => as_dec(decimal_checked_sum(a.parts().0, a.parts().1, b.parts().0, b.parts().1)),
        ArithOp::Sub => as_dec(decimal_checked_difference(a.parts().0, a.parts().1, b.parts().0, b.parts().1)),
        ArithOp::Mul => as_dec(decimal_checked_product(a.parts().0, a.parts().1, b.parts().0, b.parts().1)),
        ArithOp::Div => as_dec(decimal_checked_quotient(a.parts().0, a.parts().1, b.parts().0, b.parts().1)),
    }
}

/// An operation on two values: numbers combine as decimals (`None` on
/// overflow), any other pair gives `Void`.
pub open spec fn value_op(op: ArithOp, a: Value, b: Value) -> Option<Value> {
    match (a, b) {
        (Value::Num(x), Value::Num(y)) => match dec_op(op, x, y) {
            Some(s) => Some(Value::Num(s)),
            None => None,
        },
        _ => Some(Value::Void),
    }
}

/// An instruction argument: an immediate value or a location to read.
#[derive(Debug, PartialEq)]
pub enum IArg {
    Value(Value),
    Data(DataLocation),
}

impl IArg {
    pub open spec fn wf(self) -> bool {
        self matches IArg::Value(v) ==> v.wf()
    }

    pub fn duplicate(&self) -> (r: IArg)
        ensures
            r == *self,
    {
        match self {
            IArg::Value(v) => IArg::Value(*v),
            IArg::Data(d) => IArg::Data(d.duplicate()),
        }
    }
}

/// An instruction of the machine. Jump and call targets are positions in
/// the code; `CallNative` names a native function by its number.
#[derive(Debug, PartialEq)]
pub enum Instruction {
    Nop,
    Push(IArg),
    Pop(DataLocation),
    PopN(usize),
    Store(DataLocation, IArg),
    Return,
    Cmp(IArg, IArg),
    Jump(usize),
    JumpZ(usize),
    JumpNZ(usize),
    JumpL(usize),
    JumpG(usize),
    JumpLE(usize),
    JumpGE(usize),
    Call(usize),
    CallDynamic(String),
    CallNative(u64),
    Add(DataLocation, IArg),
    Sub(DataLocation, IArg),
    Mul(DataLocation, IArg),
    Div(DataLocation, IArg),
}

impl Instruction {
    /// Immediate numbers in the instruction are representable decimals.
    pub open spec fn wf(self) -> bool {
        match self {
            Instruction::Push(a) => a.wf(),
            Instruction::Store(_, a) => a.wf(),
            Instruction::Cmp(a, b) => a.wf() && b.wf(),
            Instruction::Add(_, a) => a.wf(),
            Instruction::Sub(_, a) => a.wf(),
            Instruction::Mul(_, a) => a.wf(),
            Instruction::Div(_, a) => a.wf(),
            _ => true,
        }
    }
}

impl Instruction {
    pub fn duplicate(&self) -> (r: Instruction)
        ensures
            r == *self,
    {
        match self {
            Instruction::Nop => Instruction::Nop,
            Instruction::Push(a) => Instruction::Push(a.duplicate()),
            Instruction::Pop(d) => Instruction::Pop(d.duplicate()),
            Instruction::PopN(n) => Instruction::PopN(*n),
            Instruction::Store(d, a) => Instruction::Store(d.duplicate(), a.duplicate()),
            Instruction::Return => Instruction::Return,
            Instruction::Cmp(a, b) => Instruction::Cmp(a.duplicate(), b.duplicate()),
            Instruction::Jump(u) => Instruction::Jump(*u),
            Instruction::JumpZ(u) => Instruction::JumpZ(*u),
            Instruction::JumpNZ(u) => Instruction::JumpNZ(*u),
            Instruction::JumpL(u) => Instruction::JumpL(*u),
            Instruction::JumpG(u) => Instruction::JumpG(*u),
            Instruction::JumpLE(u) => Instruction::JumpLE(*u),
            Instruction::JumpGE(u) => Instruction::JumpGE(*u),
            Instruction::Call(u) => Instruction::Call(*u),
            Instruction::CallDynamic(s) => Instruction::CallDynamic(s.clone()),
            Instruction::CallNative(n) => Instruction::CallNative(*n),
            Instruction::Add(d, a) => Instruction::Add(d.duplicate(), a.duplicate()),
            Instruction::Sub(d, a) => Instruction::Sub(d.duplicate(), a.duplicate()),
            Instruction::Mul(d, a) => Instruction::Mul(d.duplicate(), a.duplicate()),
            Instruction::Div(d, a) => Instruction::Div(d.duplicate(), a.duplicate()),
        }
    }
}

/// A location with its name as characters.
pub enum LocV {
    Register(Register),
    StackOffset(usize),
    StackRegOffset(Register, isize),
    StackBottomOffset(isize),
    StackStackOffset(isize),
    Dynamic(Seq<char>),
}

/// An argument with names as characters.
pub enum ArgV {
    Value(Value),
    Data(LocV),
}

/// An instruction with names as characters.
pub enum InstrV {
    Nop,
    Push(ArgV),
    Pop(LocV),
    PopN(usize),
    Store(LocV, ArgV),
    Return,
    Cmp(ArgV, ArgV),
    Jump(usize),
    JumpZ(usize),
    JumpNZ(usize),
    JumpL(usize),
    JumpG(usize),
    JumpLE(usize),
    JumpGE(usize),
    Call(usize),
    CallDynamic(Seq<char>),
    CallNative(u64),
    Add(LocV, ArgV),
    Sub(LocV, ArgV),
    Mul(LocV, ArgV),
    Div(LocV, ArgV),
}

pub open spec fn loc_view(d: DataLocation) -> LocV {
    match d {
        DataLocation::Register(r) => LocV::Register(r),
        DataLocation::StackOffset(o) => LocV::StackOffset(o),
        DataLocation::StackRegOffset(r, o) => LocV::StackRegOffset(r, o),
        DataLocation::StackBottomOffset(o) => LocV::StackBottomOffset(o),
        DataLocation::StackStackOffset(o) => LocV::StackStackOffset(o),
        DataLocation::Dynamic(s) => LocV::Dynamic(s@),
    }
}

pub open spec fn arg_view(a: IArg) -> ArgV {
    match a {
        IArg::Value(v) => ArgV::Value(v),
        IArg::Data(d) => ArgV::Data(loc_view(d)),
    }
}

/// The instruction with its names as characters.
pub open spec fn instr_view(i: Instruction) -> InstrV {
    match i {
        Instruction::Nop => InstrV::Nop,
        Instruction::Push(a) => InstrV::Push(arg_view(a)),
        Instruction::Pop(d) => InstrV::Pop(loc_view(d)),
        Instruction::PopN(n) => InstrV::PopN(n),
        Instruction::Store(d, a) => InstrV::Store(loc_view(d), arg_view(a)),
        Instruction::Return => InstrV::Return,
        Instruction::Cmp(a, b) => InstrV::Cmp(arg_view(a), arg_view(b)),
        Instruction::Jump(u) => InstrV::Jump(u),
        Instruction::JumpZ(u) => InstrV::JumpZ(u),
        Instruction::JumpNZ(u) => InstrV::JumpNZ(u),
        Instruction::JumpL(u) => InstrV::JumpL(u),
        Instruction::JumpG(u) => InstrV::JumpG(u),
        Instruction::JumpLE(u) => InstrV::JumpLE(u),
        Instruction::JumpGE(u) => InstrV::JumpGE(u),
        Instruction::Call(u) => InstrV::Call(u),
        Instruction::CallDynamic(s) => InstrV::CallDynamic(s@),
        Instruction::CallNative(n) => InstrV::CallNative(n),
        Instruction::Add(d, a) => InstrV::Add(loc_view(d), arg_view(a)),
        Instruction::Sub(d, a) => InstrV::Sub(loc_view(d), arg_view(a)),
        Instruction::Mul(d, a) => InstrV::Mul(loc_view(d), arg_view(a)),
        Instruction::Div(d, a) => InstrV::Div(loc_view(d), arg_view(a)),
    }
}

impl ArgV {
    pub open spec fn wf(self) -> bool {
        self matches ArgV::Value(v) ==> v.wf()
    }
}

impl InstrV {
    /// Immediate numbers in the instruction are representable decimals.
    pub open spec fn wf(self) -> bool {
        match self {
            InstrV::Push(a) => a.wf(),
            InstrV::Store(_, a) => a.wf(),
            InstrV::Cmp(a, b) => a.wf() && b.wf(),
            InstrV::Add(_, a) => a.wf(),
            InstrV::Sub(_, a) => a.wf(),
            InstrV::Mul(_, a) => a.wf(),
            InstrV::Div(_, a) => a.wf(),
            _ => true,
        }
    }
}

/// A program: its instructions and the position execution starts at.
pub struct Bytecode {
    pub code: Vec<Instruction>,
    pub entry: usize,
}

impl Bytecode {
    pub open spec fn wf(&self) -> bool {
        forall|i: int| 0 <= i < self.code@.len() ==> (#[trigger] self.code@[i]).wf()
    }

    pub fn duplicate(&self) -> (r: Bytecode)
        ensures
            r.code@ == self.code@,
            r.entry == self.entry,
    {
        let mut code: Vec<Instruction> = Vec::new();
        let mut i: usize = 0;
        while i < self.code.len()
            invariant
                i <= self.code@.len(),
                code@ == self.code@.take(i as int),
            decreases self.code@.len() - i,
        {
            code.push(self.code[i].duplicate());
            assert(self.code@.take(i + 1) =~= self.code@.take(i as int).push(self.code@[i as int]));
            i = i + 1;
        }
        assert(self.code@.take(i as int) =~= self.code@);
        Bytecode { code, entry: self.entry }
    }
}

/// An instruction as the builder holds it: either final, or a call or jump
/// whose target is still a label name.
pub enum BytecodePrecomp {
    Instruction(Instruction),
    Call(String),
    Jump(String),
    JumpZero(String),
    JumpNotZero(String),
    JumpLess(String),
    JumpGreater(String),
    JumpLessEq(String),
    JumpGreatEq(String),
}

/// The instruction a held item becomes once its label resolves to a
/// position, or the label's name when the label is unknown.
pub open spec fn resolve(p: BytecodePrecomp, labels: Map<Seq<char>, usize>) -> Result<Instruction, Seq<char>> {
    match p {
        BytecodePrecomp::Instruction(i) => Ok(i),
        BytecodePrecomp::Call(s) => if labels.contains_key(s@) { Ok(Instruction::Call(labels[s@])) } else { Err(s@) },
        BytecodePrecomp::Jump(s) => if labels.contains_key(s@) { Ok(Instruction::Jump(labels[s@])) } else { Err(s@) },
        BytecodePrecomp::JumpZero(s) => if labels.contains_key(s@) { Ok(Instruction::JumpZ(labels[s@])) } else { Err(s@) },
        BytecodePrecomp::JumpNotZero(s) => if labels.contains_key(s@) { Ok(Instruction::JumpNZ(labels[s@])) } else { Err(s@) },
        BytecodePrecomp::JumpLess(s) => if labels.contains_key(s@) { Ok(Instruction::JumpL(labels[s@])) } else { Err(s@) },
        BytecodePrecomp::JumpGreater(s) => if labels.contains_key(s@) { Ok(Instruction::JumpG(labels[s@])) } else { Err(s@) },
        BytecodePrecomp::JumpLessEq(s) => if labels.contains_key(s@) { Ok(Instruction::JumpLE(labels[s@])) } else { Err(s@) },
        BytecodePrecomp::JumpGreatEq(s) => if labels.contains_key(s@) { Ok(Instruction::JumpGE(labels[s@])) } else { Err(s@) },
    }
}

/// Resolving every held item in order: the instructions, or the name of
/// the first unknown label.
pub open spec fn spec_build(pre: Seq<BytecodePrecomp>, labels: Map<Seq<char>, usize>) -> Result<Seq<Instruction>, Seq<char>>
    decreases pre.len(),
{
    if pre.len() == 0 {
        Ok(Seq::empty())
    } else {
        match spec_build(pre.drop_last(), labels) {
            Err(n) => Err(n),
            Ok(s) => match resolve(pre.last(), labels) {
                Ok(i) => Ok(s.push(i)),
                Err(n) => Err(n),
            },
        }
    }
}

/// How `add_code` takes over an instruction of code placed `off` items in:
/// calls and some jumps move by `off` (the others keep their targets), and
/// a call by name becomes a call to the label of that name.
pub open spec fn relocate(i: Instruction, off: nat) -> BytecodePrecomp {
    match i {
        Instruction::Call(u) => BytecodePrecomp::Instruction(Instruction::Call((u + off) as usize)),
        Instruction::Jump(u) => BytecodePrecomp::Instruction(Instruction::Jump((u + off) as usize)),
        Instruction::JumpL(u) => BytecodePrecomp::Instruction(Instruction::JumpL((u + off) as usize)),
        Instruction::JumpNZ(u) => BytecodePrecomp::Instruction(Instruction::JumpNZ((u + off) as usize)),
        Instruction::JumpZ(u) => BytecodePrecomp::Instruction(Instruction::JumpZ((u + off) as usize)),
        Instruction::CallDynamic(s) => BytecodePrecomp::Call(s),
        other => BytecodePrecomp::Instruction(other),
    }
}

/// The targets `add_code` moves must stay within `usize` after moving.
pub open spec fn relocatable(i: Instruction, off: nat) -> bool {
    match i {
        Instruction::Call(u) => u + off <= usize::MAX,
        Instruction::Jump(u) => u + off <= usize::MAX,
        Instruction::JumpL(u) => u + off <= usize::MAX,
        Instruction::JumpNZ(u) => u + off <= usize::MAX,
        Instruction::JumpZ(u) => u + off <= usize::MAX,
        _ => true,
    }
}

/// Builds bytecode out of instructions and calls or jumps to labels that
/// are declared anywhere in the code; `build` resolves them.
pub struct BytecodeBuilder {
    code: Vec<BytecodePrecomp>,
    entry: usize,
    labels: LabelTable<usize>,
}

impl BytecodeBuilder {
    pub closed spec fn pre(&self) -> Seq<BytecodePrecomp> {
        self.code@
    }

    pub closed spec fn entry_spec(&self) -> usize {
        self.entry
    }

    pub closed spec fn labels_spec(&self) -> Map<Seq<char>, usize> {
        self.labels.view()
    }

    pub closed spec fn wf(&self) -> bool {
        self.labels.wf()
    }

    pub fn new() -> (r: Self)
        ensures
            r.wf(),
            r.pre() == Seq::<BytecodePrecomp>::empty(),
            r.entry_spec() == 0,
            r.labels_spec() == Map::<Seq<char>, usize>::empty(),
    {
        BytecodeBuilder { code: Vec::new(), entry: 0, labels: LabelTable::new() }
    }

    /// Appends the instructions of `code`, moving calls and the jumps
    /// `Jump`, `JumpL`, `JumpNZ` and `JumpZ` by the number of items already
    /// held, and turning calls by name into calls to labels.
    pub fn add_code(&mut self, code: Bytecode, replace_dynamics: bool) -> (r: &mut Self)
        requires
            old(self).wf(),
            forall|i: int| 0 <= i < code.code@.len() ==> relocatable(#[trigger] code.code@[i], old(self).pre().len()),
        ensures
            r.wf(),
            r.pre() == old(self).pre() + code.code@.map_values(|i: Instruction| relocate(i, old(self).pre().len())),
            r.entry_spec() == old(self).entry_spec(),
            r.labels_spec() == old(self).labels_spec(),
            *final(self) == *final(r),
    {
        let label_offsets = self.code.len();
        let ghost start = self.code@;
        let ghost all = code.code@;
        let mut rest = code.code;
        let mut k: usize = 0;
        let n = rest.len();
        while rest.len() > 0
            invariant
                self.wf(),
                n == all.len(),
                k + rest@.len() == n,
                rest@ == all.skip(k as int),
                label_offsets == start.len(),
                self.code@ == start + all.take(k as int).map_values(|i: Instruction| relocate(i, start.len())),
                self.entry == old(self).entry,
                self.labels.view() == old(self).labels.view(),
                forall|i: int| 0 <= i < all.len() ==> relocatable(#[trigger] all[i], start.len()),
            decreases rest@.len(),
        {
            let i = rest.remove(0);
            assert(i == all[k as int]);
            assert(relocatable(all[k as int], start.len()));
            let p = match i {
                Instruction::Call(u) => BytecodePrecomp::Instruction(Instruction::Call(u + label_offsets)),
                Instruction::Jump(u) => BytecodePrecomp::Instruction(Instruction::Jump(u + label_offsets)),
                Instruction::JumpL(u) => BytecodePrecomp::Instruction(Instruction::JumpL(u + label_offsets)),
                Instruction::JumpNZ(u) => BytecodePrecomp::Instruction(Instruction::JumpNZ(u + label_offsets)),
                Instruction::JumpZ(u) => BytecodePrecomp::Instruction(Instruction::JumpZ(u + label_offsets)),
                Instruction::CallDynamic(s) => BytecodePrecomp::Call(s),
                other => BytecodePrecomp::Instruction(other),
            };
            assert(p == relocate(all[k as int], start.len()));
            self.code.push(p);
            assert(all.take(k + 1) == all.take(k as int).push(all[k as int]));
            assert(all.skip(k + 1) =~= all.skip(k as int).drop_first());
            k = k + 1;
            assert(self.code@ =~= start + all.take(k as int).map_values(|i: Instruction| relocate(i, start.len())));
        }
        assert(all.take(n as int) =~= all);
        self
    }

    /// Appends an instruction.
    pub fn emit(&mut self, i: Instruction) -> (r: &mut Self)
        ensures
            r.wf() == old(self).wf(),
            r.pre() == old(self).pre().push(BytecodePrecomp::Instruction(i)),
            r.entry_spec() == old(self).entry_spec(),
            r.labels_spec() == old(self).labels_spec(),
            *final(self) == *final(r),
    {
        self.code.push(BytecodePrecomp::Instruction(i));
        self
    }

    /// Appends a call to the label `label`, which must be declared by the
    /// time the code is built.
    pub fn call(&mut self, label: &str) -> (r: &mut Self)
        ensures
            appended_ref(*old(self), *r, label@, RefKind::Call),
            *final(self) == *final(r),
    {
        self.code.push(BytecodePrecomp::Call(String::from_str(label)));
        assert(self.code@.drop_last() =~= old(self).code@);
        self
    }

    /// Appends a jump to the label `label`.
    pub fn jump(&mut self, label: &str) -> (r: &mut Self)
        ensures
            appended_ref(*old(self), *r, label@, RefKind::Jump),
            *final(self) == *final(r),
    {
        self.code.push(BytecodePrecomp::Jump(String::from_str(label)));
        assert(self.code@.drop_last() =~= old(self).code@);
        self
    }

    /// Appends a jump to `label` taken when the comparison register is zero.
    pub fn jump_zero(&mut self, label: &str) -> (r: &mut Self)
        ensures
            appended_ref(*old(self), *r, label@, RefKind::JumpZero),
            *final(self) == *final(r),
    {
        self.code.push(BytecodePrecomp::JumpZero(String::from_str(label)));
        assert(self.code@.drop_last() =~= old(self).code@);
        self
    }

    /// Appends a jump to `label` taken when the comparison register is not zero.
    pub fn jump_not_zero(&mut self, label: &str) -> (r: &mut Self)
        ensures
            appended_ref(*old(self), *r, label@, RefKind::JumpNotZero),
            *final(self) == *final(r),
    {
        self.code.push(BytecodePrecomp::JumpNotZero(String::from_str(label)));
        assert(self.code@.drop_last() =~= old(self).code@);
        self
    }

    /// Appends a jump to `label` taken when the comparison register is below zero.
    pub fn jump_less(&mut self, label: &str) -> (r: &mut Self)
        ensures
            appended_ref(*old(self), *r, label@, RefKind::JumpLess),
            *final(self) == *final(r),
    {
        self.code.push(BytecodePrecomp::JumpLess(String::from_str(label)));
        assert(self.code@.drop_last() =~= old(self).code@);
        self
    }

    /// Appends a jump to `label` taken when the comparison register is above zero.
    pub fn jump_greater(&mut self, label: &str) -> (r: &mut Self)
        ensures
            appended_ref(*old(self), *r, label@, RefKind::JumpGreater),
            *final(self) == *final(r),
    {
        self.code.push(BytecodePrecomp::JumpGreater(String::from_str(label)));
        assert(self.code@.drop_last() =~= old(self).code@);
        self
    }

    /// Appends a jump to `label` taken when the comparison register is at most zero.
    pub fn jump_less_eq(&mut self, label: &str) -> (r: &mut Self)
        ensures
            appended_ref(*old(self), *r, label@, RefKind::JumpLessEq),
            *final(self) == *final(r),
    {
        self.code.push(BytecodePrecomp::JumpLessEq(String::from_str(label)));
        assert(self.code@.drop_last() =~= old(self).code@);
        self
    }

    /// Appends a jump to `label` taken when the comparison register is at least zero.
    pub fn jump_greater_eq(&mut self, label: &str) -> (r: &mut Self)
        ensures
            appended_ref(*old(self), *r, label@, RefKind::JumpGreatEq),
            *final(self) == *final(r),
    {
        self.code.push(BytecodePrecomp::JumpGreatEq(String::from_str(label)));
        assert(self.code@.drop_last() =~= old(self).code@);
        self
    }

    /// Declares the label `name` at the current end of the code; a label
    /// named `main` also becomes the entry.
    pub fn decl_label(&mut self, name: &str) -> (r: &mut Self)
        requires
            old(self).wf(),
        ensures
            r.wf(),
            r.pre() == old(self).pre(),
            r.labels_spec() == old(self).labels_spec().insert(name@, old(self).pre().len() as usize),
            r.entry_spec() == (if name@ == main_label() { old(self).pre().len() as usize } else { old(self).entry_spec() }),
            *final(self) == *final(r),
    {
        let loc = self.code.len();
        proof { reveal_strlit("main"); }
        assert("main"@ =~= main_label());
        if crate::common::utils::labels::str_eq(name, "main") {
            self.entry = loc;
        }
        self.labels.insert(String::from_str(name), loc);
        self
    }

    /// Removes the last held item; returns it when it is an instruction.
    pub fn pop_instruction(&mut self) -> (r: Option<Instruction>)
        ensures
            final(self).wf() == old(self).wf(),
            final(self).pre() == (if old(self).pre().len() > 0 { old(self).pre().drop_last() } else { old(self).pre() }),
            final(self).entry_spec() == old(self).entry_spec(),
            final(self).labels_spec() == old(self).labels_spec(),
            r == (if old(self).pre().len() > 0 && old(self).pre().last() is Instruction {
                Some(old(self).pre().last()->Instruction_0)
            } else {
                None
            }),
    {
        if let Some(BytecodePrecomp::Instruction(i)) = self.code.pop() {
            Some(i)
        } else {
            None
        }
    }

    /// The last held item, when it is an instruction.
    pub fn peek_last_instruct(&self) -> (r: Option<&Instruction>)
        ensures
            r == (if self.pre().len() > 0 && self.pre().last() is Instruction {
                Some(&self.pre().last()->Instruction_0)
            } else {
                None
            }),
    {
        if self.code.len() > 0 {
            if let BytecodePrecomp::Instruction(i) = &self.code[self.code.len() - 1] {
                return Some(i);
            }
        }
        None
    }

    /// Resolves every label reference: the bytecode, or the error
    /// `Couldnt find symbol: <name>` for the first reference to an
    /// undeclared label.
    pub fn build(self) -> (r: Result<Bytecode, String>)
        requires
            self.wf(),
        ensures
            spec_build(self.pre(), self.labels_spec()) is Ok ==> r is Ok
                && r->Ok_0.code@ == spec_build(self.pre(), self.labels_spec())->Ok_0
                && r->Ok_0.entry == self.entry_spec(),
            spec_build(self.pre(), self.labels_spec()) is Err ==> r is Err
                && r->Err_0@ == missing_symbol_message(spec_build(self.pre(), self.labels_spec())->Err_0),
    {
        let ghost pre = self.code@;
        let ghost labels = self.labels.view();
        assert(pre == self.pre() && labels == self.labels_spec());
        let mut result = Bytecode { code: Vec::new(), entry: self.entry };
        let mut rest = self.code;
        let n = rest.len();
        let mut k: usize = 0;
        proof { reveal_strlit("Couldnt find symbol: "); }
        while rest.len() > 0
            invariant
                self.labels.wf(),
                labels == self.labels.view(),
                pre == self.pre(),
                labels == self.labels_spec(),
                n == pre.len(),
                k + rest@.len() == n,
                rest@ == pre.skip(k as int),
                spec_build(pre.take(k as int), labels) == Ok::<Seq<Instruction>, Seq<char>>(result.code@),
                result.entry == self.entry,
            decreases rest@.len(),
        {
            let p = rest.remove(0);
            assert(p == pre[k as int]);
            assert(pre.take(k + 1).drop_last() =~= pre.take(k as int));
            assert(pre.take(k + 1).last() == pre[k as int]);
            let target = match &p {
                BytecodePrecomp::Instruction(_) => None,
                BytecodePrecomp::Call(s) => Some(s),
                BytecodePrecomp::Jump(s) => Some(s),
                BytecodePrecomp::JumpZero(s) => Some(s),
                BytecodePrecomp::JumpNotZero(s) => Some(s),
                BytecodePrecomp::JumpLess(s) => Some(s),
                BytecodePrecomp::JumpGreater(s) => Some(s),
                BytecodePrecomp::JumpLessEq(s) => Some(s),
                BytecodePrecomp::JumpGreatEq(s) => Some(s),
            };
            let loc = match target {
                None => 0,
                Some(s) => match self.labels.get(s.as_str()) {
                    Some(v) => v,
                    None => {
                        let mut msg = String::from_str("Couldnt find symbol: ");
                        msg.append(s.as_str());
                        proof {
                            assert(resolve(pre[k as int], labels) == Err::<Instruction, Seq<char>>(s@));
                            lemma_build_error_prefix(pre, labels, k as int);
                        }
                        assert(msg@ == missing_symbol_message(s@));
                        assert(spec_build(pre, labels) == Err::<Seq<Instruction>, Seq<char>>(s@));
                        return Err(msg);
                    },
                },
            };
            let i = match p {
                BytecodePrecomp::Instruction(i) => i,
                BytecodePrecomp::Call(_) => Instruction::Call(loc),
                BytecodePrecomp::Jump(_) => Instruction::Jump(loc),
                BytecodePrecomp::JumpZero(_) => Instruction::JumpZ(loc),
                BytecodePrecomp::JumpNotZero(_) => Instruction::JumpNZ(loc),
                BytecodePrecomp::JumpLess(_) => Instruction::JumpL(loc),
                BytecodePrecomp::JumpGreater(_) => Instruction::JumpG(loc),
                BytecodePrecomp::JumpLessEq(_) => Instruction::JumpLE(loc),
                BytecodePrecomp::JumpGreatEq(_) => Instruction::JumpGE(loc),
            };
            assert(resolve(pre[k as int], labels) == Ok::<Instruction, Seq<char>>(i));
            result.code.push(i);
            assert(pre.skip(k + 1) =~= pre.skip(k as int).drop_first());
            k = k + 1;
        }
        assert(pre.take(n as int) =~= pre);
        Ok(result)
    }
}

/// The kinds of label reference the builder holds.
pub enum RefKind {
    Call,
    Jump,
    JumpZero,
    JumpNotZero,
    JumpLess,
    JumpGreater,
    JumpLessEq,
    JumpGreatEq,
}

/// `p` refers to the label `name` in the way `kind` says.
pub open spec fn refers(p: BytecodePrecomp, name: Seq<char>, kind: RefKind) -> bool {
    match (p, kind) {
        (BytecodePrecomp::Call(s), RefKind::Call) => s@ == name,
        (BytecodePrecomp::Jump(s), RefKind::Jump) => s@ == name,
        (BytecodePrecomp::JumpZero(s), RefKind::JumpZero) => s@ == name,
        (BytecodePrecomp::JumpNotZero(s), RefKind::JumpNotZero) => s@ == name,
        (BytecodePrecomp::JumpLess(s), RefKind::JumpLess) => s@ == name,
        (BytecodePrecomp::JumpGreater(s), RefKind::JumpGreater) => s@ == name,
        (BytecodePrecomp::JumpLessEq(s), RefKind::JumpLessEq) => s@ == name,
        (BytecodePrecomp::JumpGreatEq(s), RefKind::JumpGreatEq) => s@ == name,
        _ => false,
    }
}

/// `after` is `before` with one more item, a reference of kind `kind` to
/// the label `name`.
pub open spec fn appended_ref(before: BytecodeBuilder, after: BytecodeBuilder, name: Seq<char>, kind: RefKind) -> bool {
    &&& after.wf() == before.wf()
    &&& after.pre().len() == before.pre().len() + 1
    &&& after.pre().drop_last() == before.pre()
    &&& refers(after.pre().last(), name, kind)
    &&& after.entry_spec() == before.entry_spec()
    &&& after.labels_spec() == before.labels_spec()
}

pub open spec fn main_label() -> Seq<char> {
    seq!['m', 'a', 'i', 'n']
}

pub open spec fn missing_symbol_message(name: Seq<char>) -> Seq<char> {
    "Couldnt find symbol: "@ + name
}

/// When the item at `k` does not resolve and all before it do, building
/// reports that item's label.
proof fn lemma_build_error_prefix(pre: Seq<BytecodePrecomp>, labels: Map<Seq<char>, usize>, k: int)
    requires
        0 <= k < pre.len(),
        spec_build(pre.take(k), labels) is Ok,
        resolve(pre[k], labels) is Err,
    ensures
        spec_build(pre, labels) == Err::<Seq<Instruction>, Seq<char>>(resolve(pre[k], labels)->Err_0),
    decreases pre.len(),
{
    if k == pre.len() - 1 {
        assert(pre.drop_last() =~= pre.take(k));
    } else {
        assert(pre.drop_last().take(k) =~= pre.take(k));
        lemma_build_error_prefix(pre.drop_last(), labels, k);
    }
}

/// A build that succeeds keeps one instruction per held item, in order:
/// each item resolved, so that every call or jump to a label goes to the
/// position the label was declared at.
pub proof fn law_build_resolves(pre: Seq<BytecodePrecomp>, labels: Map<Seq<char>, usize>)
    ensures
        spec_build(pre, labels) matches Ok(code) ==> code.len() == pre.len() && forall|k: int|
            0 <= k < pre.len() ==> resolve(#[trigger] pre[k], labels) == Ok::<Instruction, Seq<char>>(code[k]),
    decreases pre.len(),
{
    if pre.len() > 0 {
        law_build_resolves(pre.drop_last(), labels);
        if let Ok(code) = spec_build(pre, labels) {
            let prev = spec_build(pre.drop_last(), labels)->Ok_0;
            assert forall|k: int| 0 <= k < pre.len() implies resolve(#[trigger] pre[k], labels) == Ok::<Instruction, Seq<char>>(code[k]) by {
                if k < pre.len() - 1 {
                    assert(pre.drop_last()[k] == pre[k]);
                    assert(code[k] == prev[k]);
                }
            }
        }
    }
}

/// One call on a builder, as far as its held items, labels and entry
/// go: `emit`, `call`, the jumps and the items `add_code` appends each hold
/// one item; `decl_label` declares a label.
pub enum BuildStep {
    Item(BytecodePrecomp),
    Label(Seq<char>),
}

/// The items held after the steps, from a new builder.
pub open spec fn items_of(steps: Seq<BuildStep>) -> Seq<BytecodePrecomp>
    decreases steps.len(),
{
    if steps.len() == 0 {
        Seq::empty()
    } else {
        match steps.last() {
            BuildStep::Item(p) => items_of(steps.drop_last()).push(p),
            BuildStep::Label(_) => items_of(steps.drop_last()),
        }
    }
}

/// The labels declared after the steps, from a new builder.
pub open spec fn labels_of(steps: Seq<BuildStep>) -> Map<Seq<char>, usize>
    decreases steps.len(),
{
    if steps.len() == 0 {
        Map::empty()
    } else {
        match steps.last() {
            BuildStep::Item(_) => labels_of(steps.drop_last()),
            BuildStep::Label(n) => labels_of(steps.drop_last()).insert(n, items_of(steps.drop_last()).len() as usize),
        }
    }
}

/// The entry after the steps, from a new builder.
pub open spec fn entry_of(steps: Seq<BuildStep>) -> usize
    decreases steps.len(),
{
    if steps.len() == 0 {
        0
    } else {
        match steps.last() {
            BuildStep::Label(n) => if n == main_label() {
                items_of(steps.drop_last()).len() as usize
            } else {
                entry_of(steps.drop_last())
            },
            BuildStep::Item(_) => entry_of(steps.drop_last()),
        }
    }
}

/// The number of items held when the label `name` was last declared.
pub open spec fn last_declared(steps: Seq<BuildStep>, name: Seq<char>) -> Option<nat>
    decreases steps.len(),
{
    if steps.len() == 0 {
        None
    } else {
        match steps.last() {
            BuildStep::Label(n) => if n == name {
                Some(items_of(steps.drop_last()).len())
            } else {
                last_declared(steps.drop_last(), name)
            },
            BuildStep::Item(_) => last_declared(steps.drop_last(), name),
        }
    }
}

proof fn lemma_last_declared(steps: Seq<BuildStep>, name: Seq<char>)
    ensures
        match last_declared(steps, name) {
            Some(p) => labels_of(steps).contains_key(name) && labels_of(steps)[name] == p as usize,
            None => !labels_of(steps).contains_key(name),
        },
        entry_of(steps) == (match last_declared(steps, main_label()) {
            Some(p) => p as usize,
            None => 0usize,
        }),
    decreases steps.len(),
{
    if steps.len() > 0 {
        lemma_last_declared(steps.drop_last(), name);
    }
}

/// A builder made by `new` and the calls in `steps` (each `emit`, `call`,
/// jump or item of `add_code` holds one more item, each `decl_label`
/// declares a label at the number of items held) holds the items of the
/// steps in order; each label stands at the number of items held when it
/// was last declared, an undeclared label at none; the entry is where
/// `main` was last declared, or 0. Building it then resolves every item
/// Building succeeds exactly when every held item resolves; otherwise the
/// error names the label of the first item, in order, that does not.
pub proof fn law_build_first_missing(pre: Seq<BytecodePrecomp>, labels: Map<Seq<char>, usize>)
    ensures
        spec_build(pre, labels) is Ok <==> forall|k: int| 0 <= k < pre.len() ==> #[trigger] resolve(pre[k], labels) is Ok,
        forall|k: int|
            0 <= k < pre.len() && resolve(#[trigger] pre[k], labels) is Err
                && (forall|j: int| 0 <= j < k ==> resolve(pre[j], labels) is Ok)
                ==> spec_build(pre, labels) == Err::<Seq<Instruction>, Seq<char>>(resolve(pre[k], labels)->Err_0),
    decreases pre.len(),
{
    if pre.len() > 0 {
        let init = pre.drop_last();
        law_build_first_missing(init, labels);
        assert forall|k: int| 0 <= k < init.len() implies init[k] == pre[k] by {}
        assert forall|k: int|
            0 <= k < pre.len() && resolve(#[trigger] pre[k], labels) is Err
                && (forall|j: int| 0 <= j < k ==> resolve(pre[j], labels) is Ok)
            implies spec_build(pre, labels) == Err::<Seq<Instruction>, Seq<char>>(resolve(pre[k], labels)->Err_0) by {
            if k < init.len() {
                assert(init[k] == pre[k]);
                assert(forall|j: int| 0 <= j < k ==> init[j] == pre[j]);
            } else {
                assert(forall|j: int| 0 <= j < init.len() ==> resolve(#[trigger] init[j], labels) is Ok) by {
                    assert forall|j: int| 0 <= j < init.len() implies resolve(#[trigger] init[j], labels) is Ok by {
                        assert(init[j] == pre[j]);
                    }
                }
            }
        }
        if forall|k: int| 0 <= k < pre.len() ==> #[trigger] resolve(pre[k], labels) is Ok {
            assert forall|j: int| 0 <= j < init.len() implies resolve(#[trigger] init[j], labels) is Ok by {
                assert(init[j] == pre[j]);
            }
            assert(resolve(pre[pre.len() - 1], labels) is Ok);
        }
        if spec_build(pre, labels) is Ok {
            assert forall|k: int| 0 <= k < pre.len() implies #[trigger] resolve(pre[k], labels) is Ok by {
                if k < init.len() {
                    assert(init[k] == pre[k]);
                }
            }
        }
    }
}

/// (`law_build_resolves`), or names the first label it finds undeclared.
pub proof fn law_builder_history(b: BytecodeBuilder, steps: Seq<BuildStep>, name: Seq<char>)
    requires
        b.pre() == items_of(steps),
        b.labels_spec() == labels_of(steps),
        b.entry_spec() == entry_of(steps),
    ensures
        items_of(Seq::<BuildStep>::empty()) == Seq::<BytecodePrecomp>::empty(),
        labels_of(Seq::<BuildStep>::empty()) == Map::<Seq<char>, usize>::empty(),
        entry_of(Seq::<BuildStep>::empty()) == 0,
        forall|p: BytecodePrecomp| #![trigger steps.push(BuildStep::Item(p))]
            items_of(steps.push(BuildStep::Item(p))) == items_of(steps).push(p)
            && labels_of(steps.push(BuildStep::Item(p))) == labels_of(steps)
            && entry_of(steps.push(BuildStep::Item(p))) == entry_of(steps),
        forall|n: Seq<char>| #![trigger steps.push(BuildStep::Label(n))]
            items_of(steps.push(BuildStep::Label(n))) == items_of(steps)
            && labels_of(steps.push(BuildStep::Label(n))) == labels_of(steps).insert(n, items_of(steps).len() as usize)
            && entry_of(steps.push(BuildStep::Label(n))) == (if n == main_label() {
                items_of(steps).len() as usize
            } else {
                entry_of(steps)
            }),
        match last_declared(steps, name) {
            Some(p) => b.labels_spec().contains_key(name) && b.labels_spec()[name] == p as usize,
            None => !b.labels_spec().contains_key(name),
        },
        b.entry_spec() == (match last_declared(steps, main_label()) {
            Some(p) => p as usize,
            None => 0usize,
        }),
{
    assert forall|p: BytecodePrecomp| #![trigger steps.push(BuildStep::Item(p))]
        items_of(steps.push(BuildStep::Item(p))) == items_of(steps).push(p)
        && labels_of(steps.push(BuildStep::Item(p))) == labels_of(steps)
        && entry_of(steps.push(BuildStep::Item(p))) == entry_of(steps) by {
        assert(steps.push(BuildStep::Item(p)).drop_last() =~= steps);
    }
    assert forall|n: Seq<char>| #![trigger steps.push(BuildStep::Label(n))]
        items_of(steps.push(BuildStep::Label(n))) == items_of(steps)
        && labels_of(steps.push(BuildStep::Label(n))) == labels_of(steps).insert(n, items_of(steps).len() as usize)
        && entry_of(steps.push(BuildStep::Label(n))) == (if n == main_label() {
            items_of(steps).len() as usize
        } else {
            entry_of(steps)
        }) by {
        assert(steps.push(BuildStep::Label(n)).drop_last() =~= steps);
    }
    lemma_last_declared(steps, name);
}

impl Value {
    /// Whether the value is well formed (see `wf`).
    pub fn is_wf(&self) -> (r: bool)
        ensures
            r == self.wf(),
    {
        match self {
            Value::Num(d) => -crate::lambda_jit::decimal::MAX_MANTISSA <= d.mantissa
                && d.mantissa <= crate::lambda_jit::decimal::MAX_MANTISSA
                && d.scale <= crate::lambda_jit::decimal::MAX_SCALE,
            _ => true,
        }
    }
}

impl IArg {
    /// Whether the argument is well formed (see `wf`).
    pub fn is_wf(&self) -> (r: bool)
        ensures
            r == self.wf(),
    {
        match self {
            IArg::Value(v) => v.is_wf(),
            IArg::Data(_) => true,
        }
    }
}

impl Instruction {
    /// Whether the instruction is well formed (see `wf`).
    pub fn is_wf(&self) -> (r: bool)
        ensures
            r == self.wf(),
    {
        match self {
            Instruction::Push(a) => a.is_wf(),
            Instruction::Store(_, a) => a.is_wf(),
            Instruction::Cmp(a, b) => a.is_wf() && b.is_wf(),
            Instruction::Add(_, a) => a.is_wf(),
            Instruction::Sub(_, a) => a.is_wf(),
            Instruction::Mul(_, a) => a.is_wf(),
            Instruction::Div(_, a) => a.is_wf(),
            _ => true,
        }
    }
}

impl Bytecode {
    /// Whether every instruction of the code is well formed (see `wf`).
    pub fn is_wf(&self) -> (r: bool)
        ensures
            r == self.wf(),
    {
        let mut i: usize = 0;
        while i < self.code.len()
            invariant
                i <= self.code@.len(),
                forall|k: int| 0 <= k < i ==> (#[trigger] self.code@[k]).wf(),
            decreases self.code@.len() - i,
        {
            if !self.code[i].is_wf() {
                return false;
            }
            i = i + 1;
        }
        true
    }
}

} // verus!
