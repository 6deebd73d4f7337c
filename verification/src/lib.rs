pub mod ast;
pub mod codegen;
pub mod common;
pub mod compiler;
pub mod consteval;
pub mod context;
pub mod lambda;
pub mod lambda_jit;
pub mod lambda_parser;
pub mod lang;
pub mod build_args;
