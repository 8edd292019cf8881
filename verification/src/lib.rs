//! A toolchain for a simple 16-bit stack-machine platform: a translator from
//! stack-machine bytecode to symbolic assembly, the assembler that turns that
//! assembly into binary, and the symbol bookkeeping of the compiler front end.
//!
//! Every function is verified against a contract stated over sequences of
//! characters, mathematical integers and a model of the target machine.

pub mod text;
pub mod machine;
pub mod vm_translator;
pub mod assembler;
pub mod jack_compiler;
