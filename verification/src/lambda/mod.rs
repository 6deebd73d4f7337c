pub mod jit;
pub mod native_funcs;
pub mod compile;
