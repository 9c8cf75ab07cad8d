//! A small collection of machine and language experiments, centred on a
//! register-based bytecode virtual machine: a fetch-decode-execute loop over
//! a fixed register file and a flat byte-addressable program.

pub mod allocator;
pub mod bits;
pub mod bytes;
pub mod calculator;
pub mod instruction;
pub mod lc3;
pub mod lisp;
pub mod lispy;
pub mod monkey;
pub mod stack_machine;
pub mod text;
pub mod token_stream;
pub mod vm;
