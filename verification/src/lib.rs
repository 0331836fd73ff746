pub mod fitch;
pub mod parser;
pub mod state;
