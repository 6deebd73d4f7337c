pub mod expressions;
