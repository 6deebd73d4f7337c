use vstd::prelude::*;
use crate::common::utils::labels::LabelTable;
use crate::common::utils::chars::{append_decimal, append_signed_decimal, decimal, signed_decimal};
use crate::lambda_jit::decimal::{Dec, checked_difference};
use crate::lambda_jit::lambda_il::{register_name, Register, DataLocation, Value, IArg, Instruction, Bytecode, BytecodeBuilder, ArithOp, value_op};

verus! {

/// The number of value slots on the machine's stack.
pub const STACK_SIZE: usize = 1_000_000;

/// What went wrong during execution; the machine keeps the last error.
#[derive(Debug, PartialEq)]
pub enum EnvError {
    NoError,
    OutOfBoundsAccess(DataLocation),
    EmptyStack,
    BadRegisterMutation(Register),
    Stackoverflow,
    NoDynamicFunction(String),
    Other(String),
}

impl EnvError {
    pub fn duplicate(&self) -> (r: EnvError)
        ensures
            r == *self,
    {
        match self {
            EnvError::NoError => EnvError::NoError,
            EnvError::OutOfBoundsAccess(d) => EnvError::OutOfBoundsAccess(d.duplicate()),
            EnvError::EmptyStack => EnvError::EmptyStack,
            EnvError::BadRegisterMutation(r) => EnvError::BadRegisterMutation(*r),
            EnvError::Stackoverflow => EnvError::Stackoverflow,
            EnvError::NoDynamicFunction(s) => EnvError::NoDynamicFunction(s.clone()),
            EnvError::Other(s) => EnvError::Other(s.clone()),
        }
    }

    /// The text of the error, as the machine reports it.
    pub open spec fn message_spec(self) -> Seq<char> {
        match self {
            EnvError::NoError => "No error lol"@,
            EnvError::OutOfBoundsAccess(dl) => match dl {
                DataLocation::Register(r) => "Attempted to access register: "@ + register_name(r),
                DataLocation::StackOffset(o) => "Attempted to access memory outside of stack: "@ + decimal(o as nat),
                DataLocation::StackRegOffset(reg, o) => "Attempted to access memory outside of stack: "@
                    + register_name(reg) + "+"@ + signed_decimal(o as int),
                DataLocation::StackBottomOffset(o) => "Attempted to access memory outside of stack: BOTTOM+"@
                    + signed_decimal(o as int),
                DataLocation::StackStackOffset(o) => "Attempted to access memory outside of stack STACK+"@
                    + signed_decimal(o as int),
                DataLocation::Dynamic(s) => "Attempted to access non-existent variable: "@ + s@,
            },
            EnvError::EmptyStack => "Attempted to access data on empty stack"@,
            EnvError::BadRegisterMutation(r) => "Cannot mutate register: "@ + register_name(r),
            EnvError::Stackoverflow => "Stack overflowed"@,
            EnvError::NoDynamicFunction(s) => "Could not find dynamic function: "@ + s@,
            EnvError::Other(s) => s@,
        }
    }

    /// The text of the error, as the machine reports it.
    pub fn message(&self) -> (r: String)
        ensures
            r@ == self.message_spec(),
    {
        match self {
            EnvError::NoError => String::from_str("No error lol"),
            EnvError::OutOfBoundsAccess(dl) => match dl {
                DataLocation::Register(r) => {
                    let mut m = String::from_str("Attempted to access register: ");
                    m.append(r.name());
                    m
                },
                DataLocation::StackOffset(o) => {
                    let mut m = String::from_str("Attempted to access memory outside of stack: ");
                    append_decimal(&mut m, *o as u128);
                    m
                },
                DataLocation::StackRegOffset(reg, o) => {
                    let mut m = String::from_str("Attempted to access memory outside of stack: ");
                    m.append(reg.name());
                    m.append("+");
                    append_signed_decimal(&mut m, *o as i128);
                    m
                },
                DataLocation::StackBottomOffset(o) => {
                    let mut m = String::from_str("Attempted to access memory outside of stack: BOTTOM+");
                    append_signed_decimal(&mut m, *o as i128);
                    m
                },
                DataLocation::StackStackOffset(o) => {
                    let mut m = String::from_str("Attempted to access memory outside of stack STACK+");
                    append_signed_decimal(&mut m, *o as i128);
                    m
                },
                DataLocation::Dynamic(s) => {
                    let mut m = String::from_str("Attempted to access non-existent variable: ");
                    m.append(s.as_str());
                    m
                },
            },
            EnvError::EmptyStack => String::from_str("Attempted to access data on empty stack"),
            EnvError::BadRegisterMutation(r) => {
                let mut m = String::from_str("Cannot mutate register: ");
                m.append(r.name());
                m
            },
            EnvError::Stackoverflow => String::from_str("Stack overflowed"),
            EnvError::NoDynamicFunction(s) => {
                let mut m = String::from_str("Could not find dynamic function: ");
                m.append(s.as_str());
                m
            },
            EnvError::Other(s) => s.clone(),
        }
    }

    /// The error with its message as characters.
    pub open spec fn view(self) -> ErrorView {
        match self {
            EnvError::NoError => ErrorView::NoError,
            EnvError::OutOfBoundsAccess(d) => ErrorView::OutOfBoundsAccess(d),
            EnvError::EmptyStack => ErrorView::EmptyStack,
            EnvError::BadRegisterMutation(r) => ErrorView::BadRegisterMutation(r),
            EnvError::Stackoverflow => ErrorView::Stackoverflow,
            EnvError::NoDynamicFunction(s) => ErrorView::NoDynamicFunction(s),
            EnvError::Other(s) => ErrorView::Other(s@),
        }
    }
}

/// An `EnvError` with the text of `Other` as characters.
pub enum ErrorView {
    NoError,
    OutOfBoundsAccess(DataLocation),
    EmptyStack,
    BadRegisterMutation(Register),
    Stackoverflow,
    NoDynamicFunction(String),
    Other(Seq<char>),
}

/// A code being executed and, for a called function, the position of the
/// call in the caller's code.
pub struct Frame {
    pub code: Bytecode,
    pub saved_pc: usize,
}

/// Where a run of the machine stopped.
#[derive(Debug, PartialEq, Eq)]
pub enum RunState {
    /// The step budget is used up and execution can go on.
    Running,
    /// Execution ended; `Env::result` gives the outcome.
    Finished,
    /// Execution asks for the native function with this number to be run
    /// on the machine; after it, execution goes on.
    NativeCall(u64),
}

/// The bytecode machine: registers, a stack of values, named values and
/// named functions.
pub struct Env {
    pub reg_ret: Value,
    pub reg_stack: usize,
    pub reg_bottom: usize,
    pub reg_pc: usize,
    pub reg_cmp: Dec,
    pub reg_r1: Value,
    pub reg_r2: Value,
    pub reg_r3: Value,
    pub reg_r4: Value,
    pub reg_r5: Value,
    pub stack: Vec<Value>,
    pub dynamic_functions: LabelTable<Bytecode>,
    pub dynamic_values: LabelTable<Value>,
    pub last_error: EnvError,
    pub run: bool,
    pub frames: Vec<Frame>,
}

/// A frame as mathematical values.
pub struct FrameView {
    pub code: Seq<Instruction>,
    pub entry: usize,
    pub saved_pc: usize,
}

pub open spec fn frame_view(f: Frame) -> FrameView {
    FrameView { code: f.code.code@, entry: f.code.entry, saved_pc: f.saved_pc }
}

/// The machine as mathematical values.
#[verifier::ext_equal]
pub struct Machine {
    pub ret: Value,
    pub sp: usize,
    pub bottom: usize,
    pub pc: usize,
    pub compare: Dec,
    pub r1: Value,
    pub r2: Value,
    pub r3: Value,
    pub r4: Value,
    pub r5: Value,
    pub stack: Seq<Value>,
    pub values: Map<Seq<char>, Value>,
    pub functions: Map<Seq<char>, Bytecode>,
    pub error: ErrorView,
    pub run: bool,
    pub frames: Seq<FrameView>,
}

pub open spec fn overflow_message() -> Seq<char> {
    "arithmetic overflow"@
}

pub open spec fn address_message() -> Seq<char> {
    "value is not a stack address"@
}

impl Machine {
    pub open spec fn with_error(self, e: ErrorView) -> Machine {
        Machine { error: e, ..self }
    }

    pub open spec fn next_pc(self) -> Machine {
        Machine { pc: plus_one(self.pc), ..self }
    }

    pub open spec fn get_register(self, r: Register) -> Value {
        match r {
            Register::Bottom => Value::Pointer(self.bottom),
            Register::Stack => Value::Pointer(self.sp),
            Register::Ret => self.ret,
            Register::Pc => Value::Pointer(self.pc),
            Register::Cmp => Value::Num(self.compare),
            Register::R1 => self.r1,
            Register::R2 => self.r2,
            Register::R3 => self.r3,
            Register::R4 => self.r4,
            Register::R5 => self.r5,
        }
    }

    /// Writing a register: the bottom and program counter take the value as
    /// an address, the comparison register takes it as a decimal, and the
    /// stack register cannot be written.
    pub open spec fn set_register(self, r: Register, d: Value) -> Machine {
        match r {
            Register::Bottom => match d.pointer_spec() {
                Some(p) => Machine { bottom: p, ..self },
                None => self.with_error(ErrorView::Other(address_message())),
            },
            Register::Stack => self.with_error(ErrorView::BadRegisterMutation(Register::Stack)),
            Register::Ret => Machine { ret: d, ..self },
            Register::Pc => match d.pointer_spec() {
                Some(p) => Machine { pc: p, ..self },
                None => self.with_error(ErrorView::Other(address_message())),
            },
            Register::Cmp => Machine { compare: d.val_spec(), ..self },
            Register::R1 => Machine { r1: d, ..self },
            Register::R2 => Machine { r2: d, ..self },
            Register::R3 => Machine { r3: d, ..self },
            Register::R4 => Machine { r4: d, ..self },
            Register::R5 => Machine { r5: d, ..self },
        }
    }

    pub open spec fn get_stack(self, offset: usize) -> (Machine, Value) {
        if offset >= self.stack.len() {
            (self.with_error(ErrorView::OutOfBoundsAccess(DataLocation::StackOffset(offset))), Value::Void)
        } else {
            (self, self.stack[offset as int])
        }
    }

    pub open spec fn set_stack(self, offset: usize, v: Value) -> Machine {
        if offset >= self.stack.len() {
            self.with_error(ErrorView::OutOfBoundsAccess(DataLocation::StackOffset(offset)))
        } else {
            Machine { stack: self.stack.update(offset as int, v), ..self }
        }
    }

    /// The stack slot `base + off`, where `base` is taken as a signed
    /// number; `None` where the sum leaves the signed range.
    pub open spec fn slot(base: usize, off: isize) -> Option<usize> {
        let b = base as isize;
        if isize::MIN <= b + off <= isize::MAX { Some((b + off) as isize as usize) } else { None }
    }

    pub open spec fn get_data(self, loc: DataLocation) -> (Machine, Value) {
        match loc {
            DataLocation::Register(r) => (self, self.get_register(r)),
            DataLocation::StackOffset(o) => self.get_stack(o),
            DataLocation::StackRegOffset(r, o) => match self.get_register(r) {
                Value::Pointer(ro) => match Machine::slot(ro, o) {
                    Some(t) => self.get_stack(t),
                    None => (self.with_error(ErrorView::OutOfBoundsAccess(loc)), Value::Void),
                },
                _ => (self.with_error(ErrorView::OutOfBoundsAccess(loc)), Value::Void),
            },
            DataLocation::StackBottomOffset(i) => match Machine::slot(self.bottom, i) {
                Some(t) => self.get_stack(t),
                None => (self.with_error(ErrorView::OutOfBoundsAccess(loc)), Value::Void),
            },
            DataLocation::StackStackOffset(i) => match Machine::slot(self.sp, i) {
                Some(t) => self.get_stack(t),
                None => (self.with_error(ErrorView::OutOfBoundsAccess(loc)), Value::Void),
            },
            DataLocation::Dynamic(s) => if self.values.contains_key(s@) {
                (self, self.values[s@])
            } else {
                (self.with_error(ErrorView::OutOfBoundsAccess(loc)), Value::Void)
            },
        }
    }

    pub open spec fn set_data(self, loc: DataLocation, v: Value) -> Machine {
        match loc {
            DataLocation::Register(r) => self.set_register(r, v),
            DataLocation::StackOffset(o) => self.set_stack(o, v),
            DataLocation::StackRegOffset(r, o) => match self.get_register(r) {
                Value::Pointer(ro) => match Machine::slot(ro, o) {
                    Some(t) => self.set_stack(t, v),
                    None => self.with_error(ErrorView::OutOfBoundsAccess(loc)),
                },
                _ => self.with_error(ErrorView::OutOfBoundsAccess(loc)),
            },
            DataLocation::StackBottomOffset(i) => match Machine::slot(self.bottom, i) {
                Some(t) => self.set_stack(t, v),
                None => self.with_error(ErrorView::OutOfBoundsAccess(loc)),
            },
            DataLocation::StackStackOffset(i) => match Machine::slot(self.sp, i) {
                Some(t) => self.set_stack(t, v),
                None => self.with_error(ErrorView::OutOfBoundsAccess(loc)),
            },
            DataLocation::Dynamic(s) => Machine { values: self.values.insert(s@, v), ..self },
        }
    }

    pub open spec fn arg(self, a: IArg) -> (Machine, Value) {
        match a {
            IArg::Value(v) => (self, v),
            IArg::Data(d) => self.get_data(d),
        }
    }

    pub open spec fn push(self, v: Value) -> Machine {
        if self.sp >= self.stack.len() {
            self.with_error(ErrorView::Stackoverflow)
        } else {
            Machine { stack: self.stack.update(self.sp as int, v), sp: plus_one(self.sp), ..self }
        }
    }

    pub open spec fn pop(self) -> (Machine, Value) {
        if self.sp == 0 {
            (self.with_error(ErrorView::EmptyStack), Value::Void)
        } else {
            (Machine { sp: minus_one(self.sp), ..self }, self.stack[self.sp - 1])
        }
    }

    /// An arithmetic instruction on the location `loc` and argument `a`.
    #[verifier::opaque]
    pub open spec fn arith_op(self, loc: DataLocation, a: IArg, op: ArithOp) -> Machine {
        let (m1, v1) = self.get_data(loc);
        let (m2, v2) = m1.arg(a);
        match value_op(op, v1, v2) {
            Some(v) => m2.set_data(loc, v),
            None => m2.with_error(ErrorView::Other(overflow_message())),
        }
    }

    pub open spec fn jump_if(self, c: bool, l: usize) -> Machine {
        if c { Machine { pc: l, ..self } } else { self.next_pc() }
    }

    /// `Return`: with an empty stack, or a `Void` return address on top,
    /// execution stops; otherwise execution goes on after the address
    /// popped (an error, and a stop, where it is no address).
    pub open spec fn exec_return(self) -> (Machine, RunState) {
        if self.sp == 0 {
            (Machine { run: false, ..self }, RunState::Running)
        } else {
            let (m1, ret) = self.pop();
            if ret is Void {
                (Machine { run: false, ..m1 }, RunState::Running)
            } else {
                match ret.pointer_spec() {
                    Some(p) => if p < usize::MAX {
                        (Machine { pc: plus_one(p), ..m1 }, RunState::Running)
                    } else {
                        (Machine { run: false, ..m1.with_error(ErrorView::Other(address_message())) }, RunState::Running)
                    },
                    None => (Machine { run: false, ..m1.with_error(ErrorView::Other(address_message())) }, RunState::Running),
                }
            }
        }
    }

    /// `Cmp`: the comparison register becomes the first argument minus the
    /// second.
    #[verifier::opaque]
    pub open spec fn exec_compare(self, a: IArg, b: IArg) -> (Machine, RunState) {
        let (m1, v1) = self.arg(a);
        let (m2, v2) = m1.arg(b);
        match crate::lambda_jit::decimal::sub_result(v1.val_spec(), v2.val_spec()) {
            Some(d) => (Machine { compare: d, ..m2 }.next_pc(), RunState::Running),
            None => (m2.with_error(ErrorView::Other(overflow_message())).next_pc(), RunState::Running),
        }
    }

    /// `CallDynamic`: pushes `Void` and runs the named function from its
    /// entry; an unknown name is an error.
    #[verifier::opaque]
    pub open spec fn exec_call_dynamic(self, s: String) -> (Machine, RunState) {
        if self.functions.contains_key(s@) {
            let f = self.functions[s@];
            let m1 = self.push(Value::Void);
            (
                Machine {
                    frames: m1.frames.push(FrameView { code: f.code@, entry: f.entry, saved_pc: self.pc }),
                    pc: f.entry,
                    run: true,
                    ..m1
                },
                RunState::Running,
            )
        } else {
            (self.with_error(ErrorView::NoDynamicFunction(s)).next_pc(), RunState::Running)
        }
    }

    /// One instruction: the machine after it and whether a native function
    /// is to run.
    pub open spec fn exec(self, i: Instruction) -> (Machine, RunState) {
        match i {
            Instruction::Nop => (self.next_pc(), RunState::Running),
            Instruction::Push(a) => {
                let (m1, v) = self.arg(a);
                (m1.push(v).next_pc(), RunState::Running)
            },
            Instruction::Pop(loc) => {
                let (m1, v) = self.pop();
                (m1.set_data(loc, v).next_pc(), RunState::Running)
            },
            Instruction::PopN(n) => (Machine { sp: if n > self.sp { 0 } else { minus(self.sp, n) }, ..self }.next_pc(), RunState::Running),
            Instruction::Store(d, a) => {
                let (m1, v) = self.arg(a);
                (m1.set_data(d, v).next_pc(), RunState::Running)
            },
            Instruction::Return => self.exec_return(),
            Instruction::Cmp(a, b) => self.exec_compare(a, b),
            Instruction::Jump(l) => (Machine { pc: l, ..self }, RunState::Running),
            Instruction::JumpZ(l) => (self.jump_if(self.compare.mantissa == 0, l), RunState::Running),
            Instruction::JumpNZ(l) => (self.jump_if(self.compare.mantissa != 0, l), RunState::Running),
            Instruction::JumpL(l) => (self.jump_if(self.compare.mantissa < 0, l), RunState::Running),
            Instruction::JumpG(l) => (self.jump_if(self.compare.mantissa > 0, l), RunState::Running),
            Instruction::JumpLE(l) => (self.jump_if(self.compare.mantissa <= 0, l), RunState::Running),
            Instruction::JumpGE(l) => (self.jump_if(self.compare.mantissa >= 0, l), RunState::Running),
            Instruction::Call(l) => (Machine { pc: l, ..self.push(Value::Pointer(self.pc)) }, RunState::Running),
            Instruction::CallNative(n) => (self.next_pc(), RunState::NativeCall(n)),
            Instruction::CallDynamic(s) => self.exec_call_dynamic(s),
            Instruction::Add(loc, a) => (self.arith_op(loc, a, ArithOp::Add).next_pc(), RunState::Running),
            Instruction::Sub(loc, a) => (self.arith_op(loc, a, ArithOp::Sub).next_pc(), RunState::Running),
            Instruction::Mul(loc, a) => (self.arith_op(loc, a, ArithOp::Mul).next_pc(), RunState::Running),
            Instruction::Div(loc, a) => (self.arith_op(loc, a, ArithOp::Div).next_pc(), RunState::Running),
        }
    }

    /// One step of execution: finishing the current code returns to the
    /// caller after its call (or ends when it was the outermost code);
    /// otherwise the instruction at the program counter runs.
    pub open spec fn step(self) -> (Machine, RunState) {
        if self.frames.len() == 0 {
            (self, RunState::Finished)
        } else {
            let f = self.frames.last();
            if !(self.pc < f.code.len() && self.run) {
                let m = Machine { frames: self.frames.drop_last(), ..self };
                if m.frames.len() == 0 {
                    (m, RunState::Finished)
                } else {
                    (Machine { pc: plus_one(f.saved_pc), ..m }, RunState::Running)
                }
            } else {
                self.exec(f.code[self.pc as int])
            }
        }
    }

    /// Up to `fuel` steps, stopping early when execution ends or asks for a
    /// native function.
    pub open spec fn run_steps(self, fuel: nat) -> (Machine, RunState)
        decreases fuel,
    {
        if fuel == 0 {
            (self, RunState::Running)
        } else {
            let (m, s) = self.step();
            match s {
                RunState::Running => m.run_steps((fuel - 1) as nat),
                _ => (m, s),
            }
        }
    }
}


impl Env {
    /// The machine as mathematical values.
    pub open spec fn m(&self) -> Machine {
        Machine {
            ret: self.reg_ret,
            sp: self.reg_stack,
            bottom: self.reg_bottom,
            pc: self.reg_pc,
            compare: self.reg_cmp,
            r1: self.reg_r1,
            r2: self.reg_r2,
            r3: self.reg_r3,
            r4: self.reg_r4,
            r5: self.reg_r5,
            stack: self.stack@,
            values: self.dynamic_values.view(),
            functions: self.dynamic_functions.view(),
            error: self.last_error.view(),
            run: self.run,
            frames: self.frames@.map_values(|f: Frame| frame_view(f)),
        }
    }

    /// The tables are well formed, every number is a representable
    /// decimal and every code holds only such numbers.
    pub open spec fn wf(&self) -> bool {
        &&& self.dynamic_functions.wf()
        &&& self.dynamic_values.wf()
        &&& machine_wf(self.m())
    }

    /// A machine with an empty stack of `STACK_SIZE` slots, zeroed
    /// registers and no named values or functions.
    pub fn new() -> (r: Env)
        ensures
            r.wf(),
            r.m() == initial_machine(),
    {
        let stack = empty_stack();
        let r = Env {
            reg_ret: Value::Void,
            reg_stack: 0,
            reg_bottom: 0,
            reg_pc: 0,
            reg_cmp: Dec::zero(),
            reg_r1: Value::Void,
            reg_r2: Value::Void,
            reg_r3: Value::Void,
            reg_r4: Value::Void,
            reg_r5: Value::Void,
            stack,
            dynamic_functions: LabelTable::new(),
            dynamic_values: LabelTable::new(),
            last_error: EnvError::NoError,
            run: false,
            frames: Vec::new(),
        };
        assert(r.m().frames =~= Seq::<FrameView>::empty());
        assert(r.m() =~= initial_machine());
        r
    }

    /// Makes `code` callable by the name `name`, replacing a function of
    /// that name.
    pub fn add_dynamic_mod(&mut self, name: String, code: Bytecode)
        requires
            old(self).wf(),
            code.wf(),
        ensures
            final(self).wf(),
            final(self).m() == (Machine { functions: old(self).m().functions.insert(name@, code), ..old(self).m() }),
    {
        self.dynamic_functions.insert(name, code);
        proof {
            let m = self.m();
            assert forall|k: Seq<char>| #[trigger] m.functions.contains_key(k) implies m.functions[k].wf() by {
                if k != name@ {
                    assert(old(self).m().functions.contains_key(k));
                }
            }
        }
        assert(self.m() =~= Machine { functions: old(self).m().functions.insert(name@, code), ..old(self).m() });
    }

    /// Makes the native function numbered `id` callable by the name `name`:
    /// the function saves the bottom register, sets it to the stack
    /// register, runs the native function, restores it and returns.
    pub fn add_native_function(&mut self, name: &str, id: u64)
        requires
            old(self).wf(),
        ensures
            final(self).wf(),
            final(self).m().functions.contains_key(name@),
            final(self).m().functions[name@].code@ == native_wrapper(id),
            final(self).m().functions[name@].entry == 0,
            final(self).m() == (Machine { functions: final(self).m().functions, ..old(self).m() }),
            final(self).m().functions == old(self).m().functions.insert(name@, final(self).m().functions[name@]),
    {
        let mut b = BytecodeBuilder::new();
        b.emit(Instruction::Push(IArg::Data(DataLocation::Register(Register::Bottom))))
            .emit(Instruction::Store(DataLocation::Register(Register::Bottom), IArg::Data(DataLocation::Register(Register::Stack))))
            .emit(Instruction::CallNative(id))
            .emit(Instruction::Pop(DataLocation::Register(Register::Bottom)))
            .emit(Instruction::Return);
        proof {
            reveal_with_fuel(crate::lambda_jit::lambda_il::spec_build, 6);
        }
        let code = match b.build() {
            Ok(c) => c,
            Err(_) => { proof { assert(false); } unreached() },
        };
        assert(code.code@ =~= native_wrapper(id));
        self.add_dynamic_mod(String::from_str(name), code);
    }

    pub fn get_register(&self, r: &Register) -> (v: Value)
        ensures
            v == self.m().get_register(*r),
    {
        match r {
            Register::Bottom => Value::Pointer(self.reg_bottom),
            Register::Stack => Value::Pointer(self.reg_stack),
            Register::Ret => self.reg_ret,
            Register::Pc => Value::Pointer(self.reg_pc),
            Register::Cmp => Value::Num(self.reg_cmp),
            Register::R1 => self.reg_r1,
            Register::R2 => self.reg_r2,
            Register::R3 => self.reg_r3,
            Register::R4 => self.reg_r4,
            Register::R5 => self.reg_r5,
        }
    }

    fn set_error(&mut self, e: EnvError)
        ensures
            final(self).m() == old(self).m().with_error(e.view()),
            final(self).dynamic_functions == old(self).dynamic_functions,
            final(self).dynamic_values == old(self).dynamic_values,
    {
        self.last_error = e;
        assert(self.m() =~= old(self).m().with_error(e.view()));
    }

    fn address_error(&mut self)
        ensures
            final(self).m() == old(self).m().with_error(ErrorView::Other(address_message())),
            final(self).dynamic_functions == old(self).dynamic_functions,
            final(self).dynamic_values == old(self).dynamic_values,
    {
        proof { reveal_strlit("value is not a stack address"); }
        self.set_error(EnvError::Other(String::from_str("value is not a stack address")));
    }

    fn overflow_error(&mut self)
        ensures
            final(self).m() == old(self).m().with_error(ErrorView::Other(overflow_message())),
            final(self).dynamic_functions == old(self).dynamic_functions,
            final(self).dynamic_values == old(self).dynamic_values,
    {
        proof { reveal_strlit("arithmetic overflow"); }
        self.set_error(EnvError::Other(String::from_str("arithmetic overflow")));
    }

    /// Writes a register as the machine's rules say (see `Machine::set_register`).
    pub fn set_register(&mut self, r: &Register, d: Value)
        requires
            old(self).wf(),
            d.wf(),
        ensures
            final(self).wf(),
            final(self).m() == old(self).m().set_register(*r, d),
    {
        match r {
            Register::Bottom => match d.try_to_pointer() {
                Some(p) => { self.reg_bottom = p; },
                None => { self.address_error(); },
            },
            Register::Stack => { self.set_error(EnvError::BadRegisterMutation(Register::Stack)); },
            Register::Ret => { self.reg_ret = d; },
            Register::Pc => match d.try_to_pointer() {
                Some(p) => { self.reg_pc = p; },
                None => { self.address_error(); },
            },
            Register::Cmp => { self.reg_cmp = d.val(); },
            Register::R1 => { self.reg_r1 = d; },
            Register::R2 => { self.reg_r2 = d; },
            Register::R3 => { self.reg_r3 = d; },
            Register::R4 => { self.reg_r4 = d; },
            Register::R5 => { self.reg_r5 = d; },
        }
        assert(self.m() =~= old(self).m().set_register(*r, d));
    }

    /// The stack slot `offset`; outside the stack an error and `Void`.
    pub fn get_stack(&mut self, offset: usize) -> (v: Value)
        requires
            old(self).wf(),
        ensures
            final(self).wf(),
            (final(self).m(), v) == old(self).m().get_stack(offset),
    {
        if offset >= self.stack.len() {
            self.set_error(EnvError::OutOfBoundsAccess(DataLocation::StackOffset(offset)));
            return Value::Void;
        }
        self.stack[offset]
    }

    /// Writes the stack slot `offset`; outside the stack an error.
    pub fn set_stack(&mut self, offset: usize, v: Value)
        requires
            old(self).wf(),
            v.wf(),
        ensures
            final(self).wf(),
            final(self).m() == old(self).m().set_stack(offset, v),
    {
        if offset >= self.stack.len() {
            self.set_error(EnvError::OutOfBoundsAccess(DataLocation::StackOffset(offset)));
            return;
        }
        self.stack.set(offset, v);
        assert(self.m() =~= old(self).m().set_stack(offset, v));
    }

    /// Reads a location (see `Machine::get_data`).
    pub fn get_data(&mut self, loc: &DataLocation) -> (v: Value)
        requires
            old(self).wf(),
        ensures
            final(self).wf(),
            (final(self).m(), v) == old(self).m().get_data(*loc),
            v.wf(),
    {
        match loc {
            DataLocation::Register(r) => self.get_register(r),
            DataLocation::StackOffset(o) => self.get_stack(*o),
            DataLocation::StackRegOffset(r, o) => match self.get_register(r) {
                Value::Pointer(ro) => match slot(ro, *o) {
                    Some(t) => self.get_stack(t),
                    None => {
                        self.set_error(EnvError::OutOfBoundsAccess(loc.duplicate()));
                        Value::Void
                    },
                },
                _ => {
                    self.set_error(EnvError::OutOfBoundsAccess(loc.duplicate()));
                    Value::Void
                },
            },
            DataLocation::StackBottomOffset(i) => match slot(self.reg_bottom, *i) {
                Some(t) => self.get_stack(t),
                None => {
                    self.set_error(EnvError::OutOfBoundsAccess(loc.duplicate()));
                    Value::Void
                },
            },
            DataLocation::StackStackOffset(i) => match slot(self.reg_stack, *i) {
                Some(t) => self.get_stack(t),
                None => {
                    self.set_error(EnvError::OutOfBoundsAccess(loc.duplicate()));
                    Value::Void
                },
            },
            DataLocation::Dynamic(s) => match self.dynamic_values.get(s.as_str()) {
                Some(v) => v,
                None => {
                    self.set_error(EnvError::OutOfBoundsAccess(loc.duplicate()));
                    Value::Void
                },
            },
        }
    }

    /// Writes a location (see `Machine::set_data`).
    pub fn set_data(&mut self, dest: &DataLocation, src: Value)
        requires
            old(self).wf(),
            src.wf(),
        ensures
            final(self).wf(),
            final(self).m() == old(self).m().set_data(*dest, src),
    {
        match dest {
            DataLocation::Register(r) => self.set_register(r, src),
            DataLocation::StackOffset(i) => self.set_stack(*i, src),
            DataLocation::StackRegOffset(r, i) => match self.get_register(r) {
                Value::Pointer(o) => match slot(o, *i) {
                    Some(t) => self.set_stack(t, src),
                    None => self.set_error(EnvError::OutOfBoundsAccess(dest.duplicate())),
                },
                _ => self.set_error(EnvError::OutOfBoundsAccess(dest.duplicate())),
            },
            DataLocation::StackBottomOffset(i) => match slot(self.reg_bottom, *i) {
                Some(t) => self.set_stack(t, src),
                None => self.set_error(EnvError::OutOfBoundsAccess(dest.duplicate())),
            },
            DataLocation::StackStackOffset(i) => match slot(self.reg_stack, *i) {
                Some(t) => self.set_stack(t, src),
                None => self.set_error(EnvError::OutOfBoundsAccess(dest.duplicate())),
            },
            DataLocation::Dynamic(s) => {
                self.dynamic_values.insert(s.clone(), src);
                proof {
                    let m = self.m();
                    assert forall|k: Seq<char>| #[trigger] m.values.contains_key(k) implies m.values[k].wf() by {
                        if k != s@ {
                            assert(old(self).m().values.contains_key(k));
                        }
                    }
                }
                assert(self.m() =~= old(self).m().set_data(*dest, src));
            },
        }
    }

    /// The value of an argument.
    pub fn arg_to_val(&mut self, iarg: &IArg) -> (v: Value)
        requires
            old(self).wf(),
            iarg.wf(),
        ensures
            final(self).wf(),
            (final(self).m(), v) == old(self).m().arg(*iarg),
            v.wf(),
    {
        match iarg {
            IArg::Value(v) => *v,
            IArg::Data(dl) => self.get_data(dl),
        }
    }

    /// Pushes a value; on a full stack an error.
    pub fn push_stack(&mut self, v: Value)
        requires
            old(self).wf(),
            v.wf(),
        ensures
            final(self).wf(),
            final(self).m() == old(self).m().push(v),
    {
        if self.reg_stack >= self.stack.len() {
            self.set_error(EnvError::Stackoverflow);
            return;
        }
        self.stack.set(self.reg_stack, v);
        self.reg_stack = self.reg_stack + 1;
        assert(self.m() =~= old(self).m().push(v));
    }

    /// Pops a value; on an empty stack an error and `Void`.
    pub fn pop_stack(&mut self) -> (v: Value)
        requires
            old(self).wf(),
        ensures
            final(self).wf(),
            (final(self).m(), v) == old(self).m().pop(),
            v.wf(),
    {
        if self.reg_stack == 0 {
            self.set_error(EnvError::EmptyStack);
            return Value::Void;
        }
        self.reg_stack = self.reg_stack - 1;
        assert(self.m() =~= Machine { sp: minus_one(old(self).reg_stack), ..old(self).m() });
        self.stack[self.reg_stack]
    }
}


impl Env {
    fn next_pc(&mut self)
        ensures
            final(self).m() == old(self).m().next_pc(),
            final(self).dynamic_functions == old(self).dynamic_functions,
            final(self).dynamic_values == old(self).dynamic_values,
    {
        if self.reg_pc == usize::MAX {
            self.reg_pc = 0;
        } else {
            self.reg_pc = self.reg_pc + 1;
        }
        assert(self.m() =~= old(self).m().next_pc());
    }

    fn jump_if(&mut self, c: bool, l: usize)
        ensures
            final(self).m() == old(self).m().jump_if(c, l),
            final(self).dynamic_functions == old(self).dynamic_functions,
            final(self).dynamic_values == old(self).dynamic_values,
    {
        if c {
            self.reg_pc = l;
            assert(self.m() =~= old(self).m().jump_if(c, l));
        } else {
            self.next_pc();
        }
    }

    /// Runs one instruction (see `Machine::exec`).
    pub fn execute_instruction(&mut self, i: &Instruction) -> (r: RunState)
        requires
            old(self).wf(),
            i.wf(),
            old(self).reg_pc < usize::MAX,
        ensures
            final(self).wf(),
            (final(self).m(), r) == old(self).m().exec(*i),
    {
        match i {
            Instruction::Nop => {
                self.next_pc();
            },
            Instruction::Push(v) => {
                let v = self.arg_to_val(v);
                self.push_stack(v);
                self.next_pc();
            },
            Instruction::Pop(loc) => {
                let v = self.pop_stack();
                self.set_data(loc, v);
                self.next_pc();
            },
            Instruction::PopN(n) => {
                if *n > self.reg_stack {
                    self.reg_stack = 0;
                } else {
                    self.reg_stack = self.reg_stack - *n;
                }
                assert(self.m() =~= Machine { sp: if *n > old(self).reg_stack { 0 } else { minus(old(self).reg_stack, *n) }, ..old(self).m() });
                self.next_pc();
            },
            Instruction::Store(dest, src) => {
                let v = self.arg_to_val(src);
                self.set_data(dest, v);
                self.next_pc();
            },
            Instruction::Return => {
                return self.execute_return();
            },
            Instruction::Cmp(i1, i2) => {
                proof {
                    reveal(Machine::exec_compare);
                }
                let v1 = self.arg_to_val(i1);
                let v2 = self.arg_to_val(i2);
                match checked_difference(v1.val(), v2.val()) {
                    Some(d) => {
                        self.reg_cmp = d;
                        assert(self.m() =~= Machine { compare: d, ..old(self).m().arg(*i1).0.arg(*i2).0 });
                    },
                    None => {
                        self.overflow_error();
                    },
                }
                self.next_pc();
            },
            Instruction::Jump(loc) => {
                self.reg_pc = *loc;
                assert(self.m() =~= Machine { pc: *loc, ..old(self).m() });
            },
            Instruction::JumpZ(loc) => {
                let c = self.reg_cmp.is_zero();
                self.jump_if(c, *loc);
            },
            Instruction::JumpNZ(loc) => {
                let c = !self.reg_cmp.is_zero();
                self.jump_if(c, *loc);
            },
            Instruction::JumpL(loc) => {
                let c = self.reg_cmp.is_negative() && !self.reg_cmp.is_zero();
                self.jump_if(c, *loc);
            },
            Instruction::JumpG(loc) => {
                let c = self.reg_cmp.is_positive() && !self.reg_cmp.is_zero();
                self.jump_if(c, *loc);
            },
            Instruction::JumpLE(loc) => {
                let c = self.reg_cmp.is_negative() || self.reg_cmp.is_zero();
                self.jump_if(c, *loc);
            },
            Instruction::JumpGE(loc) => {
                let c = self.reg_cmp.is_positive() || self.reg_cmp.is_zero();
                self.jump_if(c, *loc);
            },
            Instruction::Call(loc) => {
                let pc = self.reg_pc;
                self.push_stack(Value::Pointer(pc));
                self.reg_pc = *loc;
                assert(self.m() =~= Machine { pc: *loc, ..old(self).m().push(Value::Pointer(old(self).reg_pc)) });
            },
            Instruction::CallNative(id) => {
                self.next_pc();
                return RunState::NativeCall(*id);
            },
            Instruction::CallDynamic(s) => {
                self.call_dynamic(s);
            },
            Instruction::Add(loc, v) => {
                proof {
                    reveal(Machine::arith_op);
                }
                let v1 = self.get_data(loc);
                let v2 = self.arg_to_val(v);
                match v1.add(v2) {
                    Some(r) => self.set_data(loc, r),
                    None => self.overflow_error(),
                }
                self.next_pc();
            },
            Instruction::Sub(loc, v) => {
                proof {
                    reveal(Machine::arith_op);
                }
                let v1 = self.get_data(loc);
                let v2 = self.arg_to_val(v);
                match v1.sub(v2) {
                    Some(r) => self.set_data(loc, r),
                    None => self.overflow_error(),
                }
                self.next_pc();
            },
            Instruction::Mul(loc, v) => {
                proof {
                    reveal(Machine::arith_op);
                }
                let v1 = self.get_data(loc);
                let v2 = self.arg_to_val(v);
                match v1.mul(v2) {
                    Some(r) => self.set_data(loc, r),
                    None => self.overflow_error(),
                }
                self.next_pc();
            },
            Instruction::Div(loc, v) => {
                proof {
                    reveal(Machine::arith_op);
                }
                let v1 = self.get_data(loc);
                let v2 = self.arg_to_val(v);
                match v1.div(v2) {
                    Some(r) => self.set_data(loc, r),
                    None => self.overflow_error(),
                }
                self.next_pc();
            },
        }
        RunState::Running
    }

    fn execute_return(&mut self) -> (r: RunState)
        requires
            old(self).wf(),
        ensures
            final(self).wf(),
            (final(self).m(), r) == old(self).m().exec(Instruction::Return),
    {
        if self.reg_stack == 0 {
            self.run = false;
            assert(self.m() =~= Machine { run: false, ..old(self).m() });
            return RunState::Running;
        }
        let ret = self.pop_stack();
        let ghost m1 = self.m();
        if let Value::Void = ret {
            self.run = false;
            assert(self.m() =~= Machine { run: false, ..m1 });
            return RunState::Running;
        }
        match ret.try_to_pointer() {
            Some(p) => {
                if p < usize::MAX {
                    self.reg_pc = p + 1;
                    assert(self.m() =~= Machine { pc: plus_one(p), ..m1 });
                } else {
                    self.address_error();
                    self.run = false;
                    assert(self.m() =~= Machine { run: false, ..m1.with_error(ErrorView::Other(address_message())) });
                }
            },
            None => {
                self.address_error();
                self.run = false;
                assert(self.m() =~= Machine { run: false, ..m1.with_error(ErrorView::Other(address_message())) });
            },
        }
        RunState::Running
    }

    #[verifier::rlimit(50)]
    fn call_dynamic(&mut self, s: &String)
        requires
            old(self).wf(),
            old(self).reg_pc < usize::MAX,
        ensures
            final(self).wf(),
            (final(self).m(), RunState::Running) == old(self).m().exec(Instruction::CallDynamic(*s)),
    {
        let pc = self.reg_pc;
        proof {
            reveal(Machine::exec_call_dynamic);
        }
        match self.dynamic_functions.get_ref(s.as_str()) {
            Some(f) => {
                assert(self.m().functions.contains_key(s@));
                assert(self.m().functions[s@].wf());
                let code = f.duplicate();
                assert(code.wf());
                let entry = code.entry;
                self.push_stack(Value::Void);
                let ghost m1 = self.m();
                let ghost fv = FrameView { code: code.code@, entry, saved_pc: pc };
                let ghost old_frames = self.frames@;
                let frame = Frame { code, saved_pc: pc };
                assert(frame_view(frame) == fv);
                self.frames.push(frame);
                proof {
                    lemma_map_push(old_frames, frame);
                }
                self.reg_pc = entry;
                self.run = true;
                assert(self.m().frames == m1.frames.push(fv));
                assert(self.m() =~= Machine { frames: m1.frames.push(fv), pc: entry, run: true, ..m1 });
            },
            None => {
                self.set_error(EnvError::NoDynamicFunction(s.clone()));
                self.next_pc();
            },
        }
    }
}


impl Env {
    /// Starts executing `code` from its entry: clears the last error and
    /// any code left from an earlier run.
    pub fn begin(&mut self, code: &Bytecode)
        requires
            old(self).wf(),
            code.wf(),
        ensures
            final(self).wf(),
            final(self).m() == (Machine {
                error: ErrorView::NoError,
                frames: seq![FrameView { code: code.code@, entry: code.entry, saved_pc: 0 }],
                pc: code.entry,
                run: true,
                ..old(self).m()
            }),
    {
        self.last_error = EnvError::NoError;
        let c = code.duplicate();
        let mut frames: Vec<Frame> = Vec::new();
        frames.push(Frame { code: c, saved_pc: 0 });
        self.frames = frames;
        self.reg_pc = code.entry;
        self.run = true;
        assert(self.frames@.map_values(|g: Frame| frame_view(g)) =~= seq![FrameView { code: code.code@, entry: code.entry, saved_pc: 0 }]);
        assert(self.m() =~= Machine {
            error: ErrorView::NoError,
            frames: seq![FrameView { code: code.code@, entry: code.entry, saved_pc: 0 }],
            pc: code.entry,
            run: true,
            ..old(self).m()
        });
    }

    /// One step of execution (see `Machine::step`).
    pub fn step(&mut self) -> (r: RunState)
        requires
            old(self).wf(),
        ensures
            final(self).wf(),
            (final(self).m(), r) == old(self).m().step(),
    {
        let n = self.frames.len();
        if n == 0 {
            return RunState::Finished;
        }
        let ghost fv = self.m().frames.last();
        assert(fv == frame_view(self.frames@[n - 1]));
        let len = self.frames[n - 1].code.code.len();
        if !(self.reg_pc < len && self.run) {
            let ghost old_frames = self.frames@;
            let f = match self.frames.pop() {
                Some(f) => f,
                None => { proof { assert(false); } unreached() },
            };
            assert(self.frames@ == old_frames.drop_last());
            assert(self.frames@.map_values(|g: Frame| frame_view(g)) =~= old_frames.map_values(|g: Frame| frame_view(g)).drop_last());
            if self.frames.len() == 0 {
                assert(self.m() =~= Machine { frames: old(self).m().frames.drop_last(), ..old(self).m() });
                return RunState::Finished;
            }
            assert(old(self).m().frames[n - 1].saved_pc < usize::MAX);
            self.reg_pc = f.saved_pc + 1;
            assert(self.m() =~= Machine { pc: plus_one(f.saved_pc), ..Machine { frames: old(self).m().frames.drop_last(), ..old(self).m() } });
            return RunState::Running;
        }
        assert(code_wf(fv.code));
        let i = self.frames[n - 1].code.code[self.reg_pc].duplicate();
        assert(i == fv.code[self.reg_pc as int]);
        self.execute_instruction(&i)
    }

    /// Up to `fuel` steps (see `Machine::run_steps`): stops when execution
    /// ends or asks for a native function.
    pub fn run(&mut self, fuel: u64) -> (r: RunState)
        requires
            old(self).wf(),
        ensures
            final(self).wf(),
            (final(self).m(), r) == old(self).m().run_steps(fuel as nat),
    {
        let mut k: u64 = 0;
        while k < fuel
            invariant
                self.wf(),
                k <= fuel,
                old(self).m().run_steps(fuel as nat) == self.m().run_steps((fuel - k) as nat),
            decreases fuel - k,
        {
            let ghost before = self.m();
            let s = self.step();
            match s {
                RunState::Running => {},
                _ => {
                    assert(before.run_steps((fuel - k) as nat) == (self.m(), s));
                    return s;
                },
            }
            k = k + 1;
        }
        RunState::Running
    }

    /// The outcome of the last execution: the return register, or the last
    /// error when there was one.
    pub fn result(&self) -> (r: Result<Value, EnvError>)
        ensures
            r == (if self.last_error is NoError { Ok::<Value, EnvError>(self.reg_ret) } else { Err::<Value, EnvError>(self.last_error) }),
    {
        if let EnvError::NoError = self.last_error {
            Ok(self.reg_ret)
        } else {
            Err(self.last_error.duplicate())
        }
    }
}

/// The machine after a jump that is taken when `taken` holds: at `target`
/// then, else at the next instruction, with nothing else changed.
pub open spec fn after_jump(m: Machine, taken: bool, target: usize) -> Machine {
    Machine { pc: if taken { target } else { (m.pc + 1) as usize }, ..m }
}

/// Each conditional jump goes to its target exactly when the comparison
/// register passes its test (zero, not zero, below zero, above zero, at most
/// zero, at least zero) and to the next instruction otherwise; no register
/// but the program counter, no stack slot and no error changes, and
/// execution goes on.
pub proof fn law_conditional_jumps(m: Machine, t: usize)
    requires
        m.pc < usize::MAX,
    ensures
        m.exec(Instruction::JumpZ(t)) == (after_jump(m, m.compare.mantissa == 0, t), RunState::Running),
        m.exec(Instruction::JumpNZ(t)) == (after_jump(m, m.compare.mantissa != 0, t), RunState::Running),
        m.exec(Instruction::JumpL(t)) == (after_jump(m, m.compare.mantissa < 0, t), RunState::Running),
        m.exec(Instruction::JumpG(t)) == (after_jump(m, m.compare.mantissa > 0, t), RunState::Running),
        m.exec(Instruction::JumpLE(t)) == (after_jump(m, m.compare.mantissa <= 0, t), RunState::Running),
        m.exec(Instruction::JumpGE(t)) == (after_jump(m, m.compare.mantissa >= 0, t), RunState::Running),
        m.exec(Instruction::Jump(t)) == (after_jump(m, true, t), RunState::Running),
{
}

/// Pushing a value and popping it gives the value back and leaves the
/// stack register where it was, when the stack has room.
pub proof fn law_push_then_pop(m: Machine, v: Value)
    requires
        m.sp < m.stack.len() <= usize::MAX,
    ensures
        m.push(v).pop().1 == v,
        m.push(v).pop().0.sp == m.sp,
        m.push(v).pop().0.error == m.error,
{
}

/// A call pushes the position of the call and goes to its target; a
/// return with that position on top comes back to the instruction after
/// the call with the stack register where it was.
pub proof fn law_call_then_return(m: Machine, target: usize)
    requires
        m.sp < m.stack.len() <= usize::MAX,
        m.pc < usize::MAX,
    ensures
        m.exec(Instruction::Call(target)).0.pc == target,
        m.exec(Instruction::Call(target)).0.exec(Instruction::Return).0.pc == m.pc + 1,
        m.exec(Instruction::Call(target)).0.exec(Instruction::Return).0.sp == m.sp,
        m.exec(Instruction::Call(target)).0.exec(Instruction::Return).0.run == m.run,
        m.exec(Instruction::Call(target)).0.exec(Instruction::Return).0.error == m.error,
{
    let m1 = Machine { pc: target, ..m.push(Value::Pointer(m.pc)) };
    lemma_exec_call(m, target);
    assert(m1.sp == m.sp + 1);
    assert(m1.stack[m.sp as int] == Value::Pointer(m.pc));
    let (m2, ret) = m1.pop();
    assert(ret == Value::Pointer(m.pc));
    assert(m2.sp == m.sp);
    assert(m1.exec(Instruction::Return) == m1.exec_return());
}

proof fn lemma_exec_call(m: Machine, target: usize)
    ensures
        m.exec(Instruction::Call(target)) == (Machine { pc: target, ..m.push(Value::Pointer(m.pc)) }, RunState::Running),
{
}

/// Whether writing the location `loc` keeps the value as written: a
/// general register (`Ret`, `R1` to `R5`), a stack slot within the stack,
/// or a named value.
pub open spec fn plain_location(m: Machine, loc: DataLocation) -> bool {
    match loc {
        DataLocation::Register(r) => r is Ret || r is R1 || r is R2 || r is R3 || r is R4 || r is R5,
        DataLocation::StackOffset(o) => o < m.stack.len(),
        DataLocation::StackRegOffset(r, o) => match m.get_register(r) {
            Value::Pointer(ro) => match Machine::slot(ro, o) {
                Some(t) => t < m.stack.len(),
                None => false,
            },
            _ => false,
        },
        DataLocation::StackBottomOffset(i) => match Machine::slot(m.bottom, i) {
            Some(t) => t < m.stack.len(),
            None => false,
        },
        DataLocation::StackStackOffset(i) => match Machine::slot(m.sp, i) {
            Some(t) => t < m.stack.len(),
            None => false,
        },
        DataLocation::Dynamic(_) => true,
    }
}

/// Reading a location gives back what was just written to it, without an
/// error, when the location keeps values as written.
pub proof fn law_store_then_load(m: Machine, loc: DataLocation, v: Value)
    requires
        plain_location(m, loc),
    ensures
        m.set_data(loc, v).get_data(loc) == (m.set_data(loc, v), v),
        m.set_data(loc, v).error == m.error,
{
    match loc {
        DataLocation::StackRegOffset(r, o) => {
            assert(m.set_data(loc, v).get_register(r) == m.get_register(r));
        },
        _ => {},
    }
}

proof fn lemma_map_push(s: Seq<Frame>, f: Frame)
    ensures
        s.push(f).map_values(|g: Frame| frame_view(g)) == s.map_values(|g: Frame| frame_view(g)).push(frame_view(f)),
{
    assert(s.push(f).map_values(|g: Frame| frame_view(g)) =~= s.map_values(|g: Frame| frame_view(g)).push(frame_view(f)));
}

/// `STACK_SIZE` slots holding `Void`.
fn empty_stack() -> (stack: Vec<Value>)
    ensures
        stack@ == Seq::new(STACK_SIZE as nat, |j: int| Value::Void),
{
    let mut stack: Vec<Value> = Vec::new();
    let mut i: usize = 0;
    while i < STACK_SIZE
        invariant
            i <= STACK_SIZE,
            stack@ == Seq::new(i as nat, |j: int| Value::Void),
        decreases STACK_SIZE - i,
    {
        stack.push(Value::Void);
        i = i + 1;
        assert(stack@ =~= Seq::new(i as nat, |j: int| Value::Void));
    }
    stack
}

/// The machine `Env::new` makes.
pub open spec fn initial_machine() -> Machine {
    Machine {
        ret: Value::Void,
        sp: 0,
        bottom: 0,
        pc: 0,
        compare: Dec { mantissa: 0, scale: 0 },
        r1: Value::Void,
        r2: Value::Void,
        r3: Value::Void,
        r4: Value::Void,
        r5: Value::Void,
        stack: Seq::new(STACK_SIZE as nat, |j: int| Value::Void),
        values: Map::empty(),
        functions: Map::empty(),
        error: ErrorView::NoError,
        run: false,
        frames: Seq::empty(),
    }
}

/// The code `add_native_function` gives a native function.
pub open spec fn native_wrapper(id: u64) -> Seq<Instruction> {
    seq![
        Instruction::Push(IArg::Data(DataLocation::Register(Register::Bottom))),
        Instruction::Store(DataLocation::Register(Register::Bottom), IArg::Data(DataLocation::Register(Register::Stack))),
        Instruction::CallNative(id),
        Instruction::Pop(DataLocation::Register(Register::Bottom)),
        Instruction::Return,
    ]
}

pub open spec fn code_wf(code: Seq<Instruction>) -> bool {
    forall|i: int| 0 <= i < code.len() ==> (#[trigger] code[i]).wf()
}

/// Every number in the machine is a representable decimal, every code
/// holds only such numbers, the stack register is within the stack, and a
/// return position can be moved past.
pub open spec fn machine_wf(m: Machine) -> bool {
    &&& m.sp <= m.stack.len()
    &&& m.ret.wf()
    &&& m.compare.wf()
    &&& m.r1.wf() && m.r2.wf() && m.r3.wf() && m.r4.wf() && m.r5.wf()
    &&& forall|i: int| 0 <= i < m.stack.len() ==> (#[trigger] m.stack[i]).wf()
    &&& forall|k: Seq<char>| #[trigger] m.values.contains_key(k) ==> m.values[k].wf()
    &&& forall|k: Seq<char>| #[trigger] m.functions.contains_key(k) ==> m.functions[k].wf()
    &&& forall|i: int| 0 <= i < m.frames.len() ==> code_wf((#[trigger] m.frames[i]).code) && m.frames[i].saved_pc < usize::MAX
}

/// The stack slot `base + off` as `Machine::slot` says.
fn slot(base: usize, off: isize) -> (r: Option<usize>)
    ensures
        r == Machine::slot(base, off),
{
    let b = base as isize;
    match b.checked_add(off) {
        Some(x) => Some(x as usize),
        None => None,
    }
}

pub open spec fn minus_one(n: usize) -> usize {
    (n - 1) as usize
}

/// The next position; after the last `usize` comes zero.
pub open spec fn plus_one(n: usize) -> usize {
    if n == usize::MAX { 0 } else { (n + 1) as usize }
}

pub open spec fn minus(a: usize, b: usize) -> usize {
    (a - b) as usize
}

} // verus!

verus! {

/// `Cmp(a, b)` leaves in the comparison register the value of `a` minus
/// the value of `b`, whatever their scales, when that difference needs no
/// rounding: below zero exactly when `a < b`, zero exactly when they are
/// equal and above zero exactly when `a > b`.
pub proof fn law_compare_is_difference(m: Machine, a: IArg, b: IArg)
    requires
        crate::lambda_jit::decimal::sub_fits(m.arg(a).1.val_spec(), m.arg(a).0.arg(b).1.val_spec()),
    ensures
        ({
            let va = m.arg(a).1.val_spec();
            let vb = m.arg(a).0.arg(b).1.val_spec();
            let c = m.exec(Instruction::Cmp(a, b)).0.compare;
            &&& crate::lambda_jit::decimal::is_difference(c, va, vb)
            &&& (c.mantissa < 0) == (va.mantissa * crate::lambda_jit::decimal::pow10(vb.scale as nat)
                < vb.mantissa * crate::lambda_jit::decimal::pow10(va.scale as nat))
            &&& (c.mantissa == 0) == (va.mantissa * crate::lambda_jit::decimal::pow10(vb.scale as nat)
                == vb.mantissa * crate::lambda_jit::decimal::pow10(va.scale as nat))
            &&& (c.mantissa > 0) == (va.mantissa * crate::lambda_jit::decimal::pow10(vb.scale as nat)
                > vb.mantissa * crate::lambda_jit::decimal::pow10(va.scale as nat))
        }),
{
    reveal(Machine::exec_compare);
    let va = m.arg(a).1.val_spec();
    let vb = m.arg(a).0.arg(b).1.val_spec();
    crate::lambda_jit::decimal::lemma_exact_sub_value(va, vb);
    let c = m.exec(Instruction::Cmp(a, b)).0.compare;
    assert(c == crate::lambda_jit::decimal::exact_sub(va, vb));
    crate::lambda_jit::decimal::lemma_difference_sign(c, va, vb);
}

} // verus!
