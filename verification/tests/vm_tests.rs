use lambda_lang::lambda_jit::decimal::Dec;
use lambda_lang::lambda_jit::il_env::{Env, EnvError, RunState};
use lambda_lang::lambda_jit::lambda_il::{Bytecode, BytecodeBuilder, DataLocation, IArg, Instruction, Register, Value};
use lambda_lang::lambda::native_funcs::{constants, l_sqrt};

fn num(m: i128, s: u32) -> Value {
    Value::Num(Dec { mantissa: m, scale: s })
}

fn run_to_end(env: &mut Env, code: &Bytecode) -> RunState {
    env.begin(code);
    env.run(10_000)
}

#[test]
fn adds_two_numbers() {
    let mut b = BytecodeBuilder::new();
    b.emit(Instruction::Store(DataLocation::Register(Register::Ret), IArg::Value(num(2, 0))));
    b.emit(Instruction::Add(DataLocation::Register(Register::Ret), IArg::Value(num(3, 0))));
    let code = b.build().unwrap();
    let mut env = Env::new();
    assert_eq!(run_to_end(&mut env, &code), RunState::Finished);
    assert_eq!(env.result().unwrap(), num(5, 0));
}

#[test]
fn division_by_zero_is_an_error() {
    let mut b = BytecodeBuilder::new();
    b.emit(Instruction::Store(DataLocation::Register(Register::Ret), IArg::Value(num(1, 0))));
    b.emit(Instruction::Div(DataLocation::Register(Register::Ret), IArg::Value(num(0, 0))));
    let code = b.build().unwrap();
    let mut env = Env::new();
    run_to_end(&mut env, &code);
    match env.result() {
        Err(EnvError::Other(m)) => assert_eq!(m, "arithmetic overflow"),
        _ => panic!("expected an error"),
    }
}

#[test]
fn push_then_pop_gives_the_value_back() {
    let mut env = Env::new();
    env.push_stack(num(7, 1));
    assert_eq!(env.pop_stack(), num(7, 1));
    assert_eq!(env.reg_stack, 0);
}

#[test]
fn pop_on_empty_stack_is_an_error() {
    let mut env = Env::new();
    assert_eq!(env.pop_stack(), Value::Void);
    assert!(matches!(env.last_error, EnvError::EmptyStack));
}

#[test]
fn call_and_return_come_back() {
    let mut b = BytecodeBuilder::new();
    b.call("f");
    b.emit(Instruction::Add(DataLocation::Register(Register::Ret), IArg::Value(num(1, 0))));
    b.jump("end");
    b.decl_label("f");
    b.emit(Instruction::Store(DataLocation::Register(Register::Ret), IArg::Value(num(10, 0))));
    b.emit(Instruction::Return);
    b.decl_label("end");
    b.emit(Instruction::Nop);
    let code = b.build().unwrap();
    let mut env = Env::new();
    assert_eq!(run_to_end(&mut env, &code), RunState::Finished);
    assert_eq!(env.result().unwrap(), num(11, 0));
}

#[test]
fn missing_label_is_reported() {
    let mut b = BytecodeBuilder::new();
    b.jump("nowhere");
    match b.build() {
        Err(m) => assert_eq!(m, "Couldnt find symbol: nowhere"),
        Ok(_) => panic!("expected an error"),
    }
}

#[test]
fn compare_and_jump() {
    let mut b = BytecodeBuilder::new();
    b.emit(Instruction::Cmp(IArg::Value(num(1, 0)), IArg::Value(num(2, 0))));
    b.jump_less("less");
    b.emit(Instruction::Store(DataLocation::Register(Register::Ret), IArg::Value(num(0, 0))));
    b.jump("end");
    b.decl_label("less");
    b.emit(Instruction::Store(DataLocation::Register(Register::Ret), IArg::Value(num(1, 0))));
    b.decl_label("end");
    b.emit(Instruction::Nop);
    let code = b.build().unwrap();
    let mut env = Env::new();
    run_to_end(&mut env, &code);
    assert_eq!(env.result().unwrap(), num(1, 0));
}

#[test]
fn native_call_pauses_execution() {
    let mut env = Env::new();
    env.add_native_function("sqrt", 7);
    let mut b = BytecodeBuilder::new();
    b.emit(Instruction::Push(IArg::Value(num(16, 0))));
    b.emit(Instruction::CallDynamic("sqrt".to_string()));
    let code = b.build().unwrap();
    env.begin(&code);
    let mut state = env.run(100);
    let mut calls = 0;
    while let RunState::NativeCall(id) = state {
        assert_eq!(id, 7);
        l_sqrt(&mut env);
        calls += 1;
        state = env.run(100);
    }
    assert_eq!(calls, 1);
    assert_eq!(state, RunState::Finished);
    match env.result().unwrap() {
        Value::Num(d) => {
            let x = d.mantissa as f64 / 10f64.powi(d.scale as i32);
            assert!((x - 4.0).abs() < 1e-9);
        },
        _ => panic!("expected a number"),
    }
}

#[test]
fn named_value_pi() {
    let mut env = Env::new();
    constants(&mut env);
    let mut b = BytecodeBuilder::new();
    b.emit(Instruction::Store(DataLocation::Register(Register::Ret), IArg::Data(DataLocation::Dynamic("pi".to_string()))));
    let code = b.build().unwrap();
    run_to_end(&mut env, &code);
    assert_eq!(env.result().unwrap(), num(31415926535897932384626433833, 28));
}

#[test]
fn multiplication_and_subtraction() {
    let a = num(15, 1);
    let b = num(2, 0);
    assert_eq!(a.mul(b).unwrap().val(), Dec { mantissa: 30, scale: 1 });
    assert_eq!(a.sub(b).unwrap().val(), Dec { mantissa: -5, scale: 1 });
    assert_eq!(a.add(b).unwrap().val(), Dec { mantissa: 35, scale: 1 });
}

#[test]
fn values_are_written_out() {
    assert_eq!(num(-150, 2).text(), "-1.50");
    assert_eq!(num(0, 2).text(), "0.00");
    assert_eq!(num(5, 3).text(), "0.005");
    assert_eq!(num(42, 0).text(), "42");
    assert_eq!(Value::Offset(-3).text(), "-3");
    assert_eq!(Value::Pointer(7).text(), "7");
    assert_eq!(Value::Void.text(), "void");
}
