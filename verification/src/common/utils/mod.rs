pub mod chars;
pub mod hashtable;
pub mod labels;
pub mod modulepath;
pub mod outcome;
pub mod progress;
pub mod try_error;
