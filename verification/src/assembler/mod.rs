//! The assembler: from symbolic assembly to binary machine code.

pub mod assembler;
pub mod encoding;
pub mod parser;
pub mod symbol_table;
pub mod translator;
pub mod variables;
