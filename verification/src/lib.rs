//! A compiler front and back end for the Kyanite language: tokens, a recursive-descent
//! parser, source-pointing diagnostics, a symbol table, a tree intermediate representation,
//! instruction selection for x86-64 with register substitution and assembly text, and an
//! AArch64 instruction model.
pub mod text;
pub mod token;
pub mod ast;
pub mod error;
pub mod grammar;
pub mod parse;
pub mod symbol;
pub mod translate;
pub mod registers;
pub mod isa;
pub mod codegen;
