//! The bookkeeping of the compiler front end: its tokens, its table of
//! variables, and the writer of its bytecode.

pub mod symbol_table;
pub mod tokenizer;
pub mod vm_writer;
