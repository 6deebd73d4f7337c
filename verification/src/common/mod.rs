pub mod operator;
pub mod primitives;
pub mod source_owner;
pub mod sourcemap;
pub mod type_context;
pub mod utils;
