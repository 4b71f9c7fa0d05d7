//! A small Ruby-like scripting language: syntax tree, bytecode compiler,
//! stack-machine interpreter and object model.

pub mod access;
pub mod annot;
pub mod class;
pub mod codegen;
pub mod compiler;
pub mod depth;
pub mod descent;
pub mod engine;
pub mod fxmap;
pub mod grammar;
pub mod init;
pub mod inst;
pub mod instance;
pub mod laws;
pub mod lexer;
pub mod machine;
pub mod node;
pub mod objects;
pub mod parser;
pub mod programs;
pub mod run;
pub mod scan;
pub mod table;
pub mod text;
pub mod token;
pub mod util;
pub mod value;
pub mod vm;
