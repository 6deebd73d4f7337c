pub mod modify;
pub mod function;
pub mod structure;
