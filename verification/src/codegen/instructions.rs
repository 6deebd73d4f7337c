use vstd::prelude::*;
use crate::codegen::encoder::{LMEByteEncoder, le_bytes, lemma_le_bytes_len, push_u64_le};

verus! {

/// How the operands of an arithmetic instruction are read.
#[derive(Copy, Clone, Debug, PartialEq, Eq, Structural)]
pub enum EffectiveType {
    Signed,
    Unsigned,
    F32,
    F64,
}

impl EffectiveType {
    /// The byte that encodes the type.
    pub open spec fn code(self) -> u8 {
        match self {
            EffectiveType::Signed => 0,
            EffectiveType::Unsigned => 1,
            EffectiveType::F32 => 2,
            EffectiveType::F64 => 3,
        }
    }

    fn code_exec(&self) -> (r: u8)
        ensures
            r == self.code(),
    {
        match self {
            EffectiveType::Signed => 0,
            EffectiveType::Unsigned => 1,
            EffectiveType::F32 => 2,
            EffectiveType::F64 => 3,
        }
    }
}

impl LMEByteEncoder for EffectiveType {
    open spec fn encoding(&self) -> Seq<u8> {
        seq![self.code()]
    }

    fn encode(&self, out: &mut Vec<u8>) {
        out.push(self.code_exec());
        assert(out@ =~= old(out)@ + self.encoding());
    }
}

/// The width of a memory access, in bytes.
#[derive(Copy, Clone, Debug, PartialEq, Eq, Structural)]
pub enum Size {
    Byte,
    Word,
    DWord,
    QWord,
}

impl Size {
    /// The number of bytes, which is also the byte that encodes the size.
    pub open spec fn bytes(self) -> u8 {
        match self {
            Size::Byte => 1,
            Size::Word => 2,
            Size::DWord => 4,
            Size::QWord => 8,
        }
    }

    pub fn as_byte(&self) -> (r: u8)
        ensures
            r == self.bytes(),
    {
        match self {
            Size::Byte => 1,
            Size::Word => 2,
            Size::DWord => 4,
            Size::QWord => 8,
        }
    }
}

/// The registers of the machine.
#[derive(Copy, Clone, Debug, PartialEq, Eq, Structural)]
pub enum Register {
    Ret,
    Aux,
    Stack,
    Bottom,
    R1,
    R2,
    R3,
    R4,
    R5,
    Pc,
}

impl Register {
    /// The byte that encodes the register.
    pub open spec fn code(self) -> u8 {
        match self {
            Register::Ret => 0,
            Register::Aux => 1,
            Register::Stack => 2,
            Register::Bottom => 3,
            Register::R1 => 4,
            Register::R2 => 5,
            Register::R3 => 6,
            Register::R4 => 7,
            Register::R5 => 8,
            Register::Pc => 9,
        }
    }

    fn code_exec(&self) -> (r: u8)
        ensures
            r == self.code(),
    {
        match self {
            Register::Ret => 0,
            Register::Aux => 1,
            Register::Stack => 2,
            Register::Bottom => 3,
            Register::R1 => 4,
            Register::R2 => 5,
            Register::R3 => 6,
            Register::R4 => 7,
            Register::R5 => 8,
            Register::Pc => 9,
        }
    }
}

impl LMEByteEncoder for Register {
    open spec fn encoding(&self) -> Seq<u8> {
        seq![self.code()]
    }

    fn encode(&self, out: &mut Vec<u8>) {
        out.push(self.code_exec());
        assert(out@ =~= old(out)@ + self.encoding());
    }
}

/// An operand: a value, or a register.
#[derive(Copy, Clone, Debug, PartialEq, Eq, Structural)]
pub enum Data {
    Value(u64),
    Register(Register),
}

impl Data {
    /// The number of bytes of the encoding.
    pub fn byte_length(&self) -> (r: u64)
        ensures
            r == self.encoding().len(),
            r <= 9,
    {
        match self {
            Data::Value(v) => {
                proof {
                    lemma_le_bytes_len(*v as nat, 8);
                }
                9
            },
            Data::Register(_) => 2,
        }
    }
}

impl LMEByteEncoder for Data {
    /// A tag byte (0 for a value, 1 for a register), then the value's eight
    /// bytes, least significant first, or the register's byte.
    open spec fn encoding(&self) -> Seq<u8> {
        match *self {
            Data::Value(v) => seq![0u8] + le_bytes(v as nat, 8),
            Data::Register(r) => seq![1u8, r.code()],
        }
    }

    fn encode(&self, out: &mut Vec<u8>) {
        match self {
            Data::Value(v) => {
                out.push(0);
                let ghost mid = out@;
                push_u64_le(out, *v);
                assert(out@ =~= old(out)@ + self.encoding());
            },
            Data::Register(r) => {
                out.push(1);
                r.encode(out);
                assert(out@ =~= old(out)@ + self.encoding());
            },
        }
    }
}

/// The instructions of the machine. A pointer operand is a `Data`.
#[derive(Copy, Clone, Debug, PartialEq, Eq, Structural)]
pub enum Instruction {
    Move(Data, Register),
    MvRet(Data),
    MvAux(Data),
    Push(Data),
    Pop(Register),
    /// Moves data into memory through a pointer.
    MvPtr(Data, Size, Data),
    /// Loads the value a pointer points at into the return register.
    Lea(Data, Size),
    /// Loads from the bottom address.
    Leab(Data, Size),
    Add(EffectiveType),
    Sub(EffectiveType),
    Mul(EffectiveType),
    Div(EffectiveType),
    Call(Data),
    Return,
}

impl LMEByteEncoder for Instruction {
    /// The opcode, then the operands in order; `Leab` is written with the
    /// opcode of `Lea`.
    open spec fn encoding(&self) -> Seq<u8> {
        match *self {
            Instruction::Move(d, r) => seq![0x0u8] + d.encoding() + r.encoding(),
            Instruction::MvRet(d) => seq![0x9u8] + d.encoding(),
            Instruction::MvAux(d) => seq![0xAu8] + d.encoding(),
            Instruction::Push(d) => seq![0xDu8] + d.encoding(),
            Instruction::Pop(r) => seq![0xEu8] + r.encoding(),
            Instruction::MvPtr(d, s, p) => seq![0x6u8] + d.encoding() + seq![s.bytes()] + p.encoding(),
            Instruction::Lea(p, s) => seq![0x8u8] + p.encoding() + seq![s.bytes()],
            Instruction::Leab(d, s) => seq![0x8u8] + d.encoding() + seq![s.bytes()],
            Instruction::Add(t) => seq![0x1u8] + t.encoding(),
            Instruction::Sub(t) => seq![0x2u8] + t.encoding(),
            Instruction::Mul(t) => seq![0x3u8] + t.encoding(),
            Instruction::Div(t) => seq![0x4u8] + t.encoding(),
            Instruction::Call(d) => seq![0x5u8] + d.encoding(),
            Instruction::Return => seq![0xBu8],
        }
    }

    fn encode(&self, out: &mut Vec<u8>) {
        match self {
            Instruction::Move(d, r) => {
                out.push(0x0);
                d.encode(out);
                r.encode(out);
            },
            Instruction::MvRet(d) => {
                out.push(0x9);
                d.encode(out);
            },
            Instruction::MvAux(d) => {
                out.push(0xA);
                d.encode(out);
            },
            Instruction::Push(d) => {
                out.push(0xD);
                d.encode(out);
            },
            Instruction::Pop(r) => {
                out.push(0xE);
                r.encode(out);
            },
            Instruction::MvPtr(d, s, p) => {
                out.push(0x6);
                d.encode(out);
                out.push(s.as_byte());
                p.encode(out);
            },
            Instruction::Lea(p, s) => {
                out.push(0x8);
                p.encode(out);
                out.push(s.as_byte());
            },
            Instruction::Leab(d, s) => {
                out.push(0x8);
                d.encode(out);
                out.push(s.as_byte());
            },
            Instruction::Add(t) => {
                out.push(0x1);
                t.encode(out);
            },
            Instruction::Sub(t) => {
                out.push(0x2);
                t.encode(out);
            },
            Instruction::Mul(t) => {
                out.push(0x3);
                t.encode(out);
            },
            Instruction::Div(t) => {
                out.push(0x4);
                t.encode(out);
            },
            Instruction::Call(d) => {
                out.push(0x5);
                d.encode(out);
            },
            Instruction::Return => {
                out.push(0xB);
            },
        }
        assert(out@ =~= old(out)@ + self.encoding());
    }
}

impl Instruction {
    /// The number of bytes of the encoding.
    pub fn byte_length(&self) -> (r: u64)
        ensures
            r == self.encoding().len(),
    {
        match self {
            Instruction::Move(d, _) => 1 + d.byte_length() + 1,
            Instruction::MvRet(d) => 1 + d.byte_length(),
            Instruction::MvAux(d) => 1 + d.byte_length(),
            Instruction::MvPtr(src, _size, dest) => 1 + src.byte_length() + 1 + dest.byte_length(),
            Instruction::Push(d) => 1 + d.byte_length(),
            Instruction::Pop(_) => 2,
            Instruction::Lea(d, _s) => 1 + d.byte_length() + 1,
            Instruction::Leab(d, _s) => 1 + d.byte_length() + 1,
            Instruction::Add(_) => 2,
            Instruction::Sub(_) => 2,
            Instruction::Mul(_) => 2,
            Instruction::Div(_) => 2,
            Instruction::Call(d) => 1 + d.byte_length(),
            Instruction::Return => 1,
        }
    }
}

} // verus!
