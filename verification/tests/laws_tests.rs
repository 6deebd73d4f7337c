use lambda_lang::ast::ty::Type;
use lambda_lang::common::utils::modulepath::ModulePath;
use lambda_lang::compiler::Registry;
use lambda_lang::lambda_jit::decimal::Dec;
use lambda_lang::lambda_jit::il_env::{Env, EnvError, RunState};
use lambda_lang::lambda_jit::lambda_il::{Bytecode, BytecodeBuilder, DataLocation, IArg, Instruction, Register, Value};

fn num(m: i128) -> Value {
    Value::Num(Dec { mantissa: m, scale: 0 })
}

#[test]
fn file_module_round_trip() {
    let parts = vec!["core".to_string(), "imath.lm".to_string()];
    let m = ModulePath::from_path(&parts);
    assert_eq!(m.path, "core::imath");
    assert_eq!(m.to_path(), "core/imath.lm");
}

#[test]
fn registering_twice_gives_one_id() {
    let mut r: Registry<String> = Registry::new();
    let a = r.add("x".to_string());
    let b = r.add("x".to_string());
    assert_eq!(a, b);
    assert_eq!(r.items.len(), 1);
}

#[test]
fn store_then_load() {
    let mut env = Env::new();
    env.set_data(&DataLocation::Dynamic("v".to_string()), num(9));
    assert_eq!(env.get_data(&DataLocation::Dynamic("v".to_string())), num(9));
    env.set_data(&DataLocation::StackOffset(4), num(2));
    assert_eq!(env.get_data(&DataLocation::StackOffset(4)), num(2));
    env.set_data(&DataLocation::Register(Register::R3), num(1));
    assert_eq!(env.get_data(&DataLocation::Register(Register::R3)), num(1));
    assert!(matches!(env.last_error, EnvError::NoError));
}

#[test]
fn writing_the_stack_register_is_refused() {
    let mut env = Env::new();
    env.set_register(&Register::Stack, num(3));
    assert!(matches!(env.last_error, EnvError::BadRegisterMutation(Register::Stack)));
    assert_eq!(env.last_error.message(), "Cannot mutate register: STACK");
}

#[test]
fn error_messages() {
    assert_eq!(EnvError::OutOfBoundsAccess(DataLocation::StackBottomOffset(-3)).message(), "Attempted to access memory outside of stack: BOTTOM+-3");
    assert_eq!(EnvError::OutOfBoundsAccess(DataLocation::StackStackOffset(2)).message(), "Attempted to access memory outside of stack STACK+2");
    assert_eq!(EnvError::OutOfBoundsAccess(DataLocation::StackRegOffset(Register::R1, 5)).message(), "Attempted to access memory outside of stack: R1+5");
    assert_eq!(EnvError::OutOfBoundsAccess(DataLocation::StackOffset(7)).message(), "Attempted to access memory outside of stack: 7");
    assert_eq!(EnvError::EmptyStack.message(), "Attempted to access data on empty stack");
    assert_eq!(EnvError::NoDynamicFunction("f".to_string()).message(), "Could not find dynamic function: f");
}

#[test]
fn unknown_dynamic_function() {
    let mut b = BytecodeBuilder::new();
    b.emit(Instruction::CallDynamic("nope".to_string()));
    let code = b.build().unwrap();
    let mut env = Env::new();
    env.begin(&code);
    env.run(100);
    assert!(matches!(env.result(), Err(EnvError::NoDynamicFunction(s)) if s == "nope"));
}

#[test]
fn linking_places_called_functions() {
    let mut env = Env::new();
    let mut f = BytecodeBuilder::new();
    f.emit(Instruction::Store(DataLocation::Register(Register::Ret), IArg::Value(num(42))));
    f.emit(Instruction::Return);
    env.add_dynamic_mod("answer".to_string(), f.build().unwrap());
    let main = Bytecode {
        code: vec![Instruction::Push(IArg::Value(Value::Void)), Instruction::CallDynamic("answer".to_string()), Instruction::PopN(1)],
        entry: 0,
    };
    let linked = env.link(main).unwrap();
    assert_eq!(linked.entry, 2);
    assert_eq!(linked.code.len(), 5);
    assert_eq!(linked.code[3], Instruction::Call(0));
    env.begin(&linked);
    assert_eq!(env.run(100), RunState::Finished);
    assert_eq!(env.result().unwrap(), num(42));
    let missing = Bytecode { code: vec![Instruction::CallDynamic("gone".to_string())], entry: 0 };
    assert!(matches!(env.link(missing), Err(m) if m == "Couldnt find symbol: gone"));
}

#[test]
fn type_text() {
    let t = Type::FnPtr {
        ret: Box::new(Type::Reference(Box::new(Type::Typename("T".to_string())))),
        params: vec![Type::Array { ty: Box::new(Type::Typename("u8".to_string())), size: 4 }, Type::Slice(Box::new(Type::Typename("c".to_string())))],
    };
    assert_eq!(t.describe(), "T&(u8[4], c[])");
    let g = Type::Generic { name: "Map".to_string(), params: vec![Type::Pointer(Box::new(Type::Typename("K".to_string())))] };
    assert_eq!(g.describe(), "Map<K*>");
}

#[test]
fn module_file_module_round_trip() {
    let m = ModulePath::from_module_path("core::imath");
    let file = m.to_path();
    assert_eq!(file, "core/imath.lm");
    let parts: Vec<String> = file.split('/').map(|p| p.to_string()).collect();
    assert_eq!(ModulePath::from_path(&parts).path, "core::imath");
}

#[test]
fn conditional_jumps_follow_the_comparison() {
    let mut env = Env::new();
    env.reg_cmp = Dec { mantissa: 0, scale: 0 };
    env.reg_pc = 4;
    env.execute_instruction(&Instruction::JumpZ(9));
    assert_eq!(env.reg_pc, 9);
    env.execute_instruction(&Instruction::JumpNZ(2));
    assert_eq!(env.reg_pc, 10);
    env.reg_cmp = Dec { mantissa: -3, scale: 1 };
    env.execute_instruction(&Instruction::JumpL(1));
    assert_eq!(env.reg_pc, 1);
    env.execute_instruction(&Instruction::JumpGE(7));
    assert_eq!(env.reg_pc, 2);
    assert!(matches!(env.last_error, EnvError::NoError));
}

#[test]
fn builder_labels_stand_where_last_declared() {
    let mut b = BytecodeBuilder::new();
    b.decl_label("main");
    b.emit(Instruction::Nop);
    b.jump("l");
    b.decl_label("l");
    b.emit(Instruction::Nop);
    b.decl_label("main");
    b.emit(Instruction::Nop);
    let code: Bytecode = b.build().unwrap();
    assert_eq!(code.entry, 3);
    assert_eq!(code.code.len(), 4);
    assert!(matches!(code.code[1], Instruction::Jump(2)));
    let mut bad = BytecodeBuilder::new();
    bad.call("nowhere");
    assert_eq!(bad.build().err(), Some("Couldnt find symbol: nowhere".to_string()));
}

#[test]
fn build_names_the_first_missing_label() {
    let mut b = BytecodeBuilder::new();
    b.decl_label("here");
    b.jump("here");
    b.call("first");
    b.jump("second");
    assert_eq!(b.build().err(), Some("Couldnt find symbol: first".to_string()));
}
