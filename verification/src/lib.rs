//! A small line-oriented scripting language and its execution engine.
//!
//! A script is a sequence of text lines. Each line is a comment, a routine
//! delimiter, or an instruction over named variables holding scalar or array
//! values. The library parses lines, maintains the variable store and the
//! routine table, and executes instructions; every operation is specified
//! against a mathematical model of the session state and verified.

pub mod compare;
pub mod engine;
pub mod instruction;
pub mod laws;
pub mod literal;
pub mod number;
pub mod text;
pub mod value;
pub mod vm;

pub use engine::Error;
pub use engine::execute_code_impl;
pub use engine::handle_line;
pub use instruction::Instruction;
pub use instruction::Routine;
pub use literal::parse_value;
pub use text::camel_to_screaming_snake_case;
pub use value::Value;
pub use vm::Memory;
pub use vm::Routines;
pub use vm::VMError;
pub use vm::execute;
