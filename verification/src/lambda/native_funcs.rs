use vstd::prelude::*;
use crate::lambda_jit::decimal::{Dec, as_dec, decimal_sqrt, sqrt};
use crate::lambda_jit::il_env::{Env, Machine, machine_wf};
use crate::lambda_jit::lambda_il::Value;

verus! {

/// π to the 28 places a decimal holds: 3.1415926535897932384626433833.
pub open spec fn pi() -> Dec {
    Dec { mantissa: 31415926535897932384626433833, scale: 28 }
}

/// Defines the named value `pi`.
pub fn constants(env: &mut Env)
    requires
        old(env).wf(),
    ensures
        final(env).wf(),
        final(env).m() == (Machine { values: old(env).m().values.insert("pi"@, Value::Num(pi())), ..old(env).m() }),
{
    let p = Value::Num(Dec { mantissa: 31415926535897932384626433833, scale: 28 });
    env.dynamic_values.insert(String::from_str("pi"), p);
    assert(env.m() =~= Machine { values: old(env).m().values.insert("pi"@, Value::Num(pi())), ..old(env).m() });
}

/// The square root of the argument three slots below the bottom register,
/// into the return register; a negative argument gives zero.
pub fn l_sqrt(env: &mut Env)
    requires
        old(env).wf(),
        3 <= old(env).reg_bottom < old(env).stack@.len() + 3,
    ensures
        final(env).wf(),
        final(env).m() == (Machine {
            ret: Value::Num(
                match as_dec(decimal_sqrt(
                    old(env).stack@[old(env).reg_bottom - 3].val_spec().parts().0,
                    old(env).stack@[old(env).reg_bottom - 3].val_spec().parts().1,
                )) {
                    Some(d) => d,
                    None => Dec { mantissa: 0, scale: 0 },
                },
            ),
            ..old(env).m()
        }),
{
    let arg = env.stack[env.reg_bottom - 3];
    assert(old(env).stack@[old(env).reg_bottom - 3].wf());
    let r = match sqrt(arg.to_number()) {
        Some(d) => d,
        None => Dec { mantissa: 0, scale: 0 },
    };
    env.reg_ret = Value::Num(r);
    assert(env.m() =~= Machine { ret: Value::Num(r), ..old(env).m() });
}

} // verus!
