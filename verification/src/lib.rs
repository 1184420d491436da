#![verifier::loop_isolation(false)]

pub mod ast;
pub mod error;
pub mod float_bits;
pub mod interop;
pub mod interpreter;
pub mod laws;
pub mod lexer;
pub mod package_manager;
pub mod parser;
pub mod standard_library;
pub mod strutil;
pub mod table;
pub mod token;
pub mod type_system;
pub mod value;
