use lambda_lang::codegen::encoder::LMEByteEncoder;
use lambda_lang::codegen::exec_builder::ExecBuilder;
use lambda_lang::codegen::instructions::{Data, EffectiveType, Instruction, Register, Size};

fn encoded(i: &Instruction) -> Vec<u8> {
    let mut out = Vec::new();
    i.encode(&mut out);
    out
}

#[test]
fn encodings_match_their_lengths() {
    let all = vec![
        Instruction::Move(Data::Value(0x0102030405060708), Register::R1),
        Instruction::MvRet(Data::Register(Register::Aux)),
        Instruction::MvAux(Data::Value(1)),
        Instruction::Push(Data::Register(Register::Pc)),
        Instruction::Pop(Register::R5),
        Instruction::MvPtr(Data::Value(9), Size::DWord, Data::Register(Register::Stack)),
        Instruction::Lea(Data::Register(Register::Bottom), Size::QWord),
        Instruction::Leab(Data::Value(3), Size::Byte),
        Instruction::Add(EffectiveType::Signed),
        Instruction::Sub(EffectiveType::Unsigned),
        Instruction::Mul(EffectiveType::F32),
        Instruction::Div(EffectiveType::F64),
        Instruction::Call(Data::Value(77)),
        Instruction::Return,
    ];
    for i in &all {
        assert_eq!(encoded(i).len() as u64, i.byte_length());
    }
}

#[test]
fn move_encoding() {
    let bytes = encoded(&Instruction::Move(Data::Value(0x0102030405060708), Register::R1));
    assert_eq!(bytes, vec![0x0, 0, 8, 7, 6, 5, 4, 3, 2, 1, 4]);
}

#[test]
fn leab_uses_the_lea_opcode() {
    assert_eq!(encoded(&Instruction::Leab(Data::Register(Register::Ret), Size::Word)), vec![0x8, 1, 0, 2]);
    assert_eq!(encoded(&Instruction::MvPtr(Data::Register(Register::Aux), Size::QWord, Data::Register(Register::R2))), vec![0x6, 1, 1, 8, 1, 5]);
}

#[test]
fn labels_are_at_the_offset_of_their_code() {
    let mut b = ExecBuilder::new();
    b.emit(Instruction::Push(Data::Value(1)));
    b.decl_label("f".to_string());
    b.emit(Instruction::Return);
    b.decl_entry();
    b.call("f");
    let img = match b.build() {
        Ok(i) => i,
        Err(_) => panic!("build failed"),
    };
    assert_eq!(img.functions.len(), 1);
    assert_eq!(img.functions[0].0, "f");
    assert_eq!(img.functions[0].1, 10);
    assert_eq!(img.code_entry, 11);
    assert_eq!(img.code.len(), 20);
    assert_eq!(&img.code[11..], &[5, 10, 0, 0, 0, 0, 0, 0, 0]);
}

#[test]
fn unknown_label_is_reported() {
    let mut b = ExecBuilder::new();
    b.call("g");
    match b.build() {
        Err(m) => assert_eq!(m, "Unknown label: g"),
        Ok(_) => panic!("expected an error"),
    }
}
