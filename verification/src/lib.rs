//! A verified core of a workflow virtual machine: its heap, value stack,
//! bytecode, call frames and instructions, the compiler from the workflow
//! language to bytecode, and the job and infrastructure descriptions around it.

pub mod heap;
pub mod value;
pub mod builtins;
pub mod buffers;
pub mod bytecode;
pub mod objects;
pub mod stack;
pub mod convert;
pub mod roundtrip;
pub mod globals;
pub mod disasm;
pub mod frames;
pub mod packages;
pub mod text;
pub mod callback;
pub mod infra;
pub mod encoding;
pub mod job;
pub mod driver;
pub mod cli;
pub mod container;
pub mod ast;
pub mod generator;
pub mod vm;
