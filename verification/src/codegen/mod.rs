pub mod encoder;
pub mod exec_builder;
pub mod instructions;
