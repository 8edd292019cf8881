//! The target machine: its symbolic assembly language and a model of how it
//! executes.

pub mod instruction;
pub mod model;
pub mod program;
