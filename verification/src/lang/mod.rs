pub mod keyword;
pub mod literal;
pub mod operator;
pub mod source_map;
