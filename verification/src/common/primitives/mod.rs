pub mod decimal128;
pub mod decimal64;
pub mod text;
