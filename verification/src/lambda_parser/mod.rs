pub mod expression;
pub mod statement;
pub mod tokenization;
pub mod variables;
