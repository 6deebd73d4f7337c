pub mod assembler;
pub mod decimal;
pub mod il_env;
pub mod lambda_il;
