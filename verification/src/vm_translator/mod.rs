//! The translator from stack-machine bytecode to assembly.

pub mod branching;
pub mod code_writer;
pub mod frames;
pub mod labels;
pub mod parser;
pub mod stack;
pub mod vm_translator;
