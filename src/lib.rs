//! A small bytecode interpreter for a subset of the JVM class-file format.

pub mod utils;
pub mod error;
pub mod class;
pub mod descriptor;
pub mod object;
pub mod heap;
pub mod frame;
pub mod opcodes;
pub mod decoder;
pub mod classloader;
pub mod engine;
pub mod ops;
pub mod interp;
pub mod laws;
