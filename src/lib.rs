//! Symbolic inversion and "under" decomposition of stack-machine instruction
//! sequences, with every rewrite rule stated as a spec function.
pub mod instr;
pub mod signature;
pub mod pattern;
pub mod invert;
pub mod under;
pub mod cache;
pub mod function;
pub mod laws;
