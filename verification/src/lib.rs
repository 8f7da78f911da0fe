//! A compiler for a small imperative language (integer arguments and locals,
//! arithmetic, `if`/`else`, `while`, a single returned variable) to textual
//! x86-64 assembly for one function.
//!
//! The pipeline is `scanner` (source text to tokens), `parser` (tokens to a
//! `Program`), and `codegen` (a `Program` to assembly text).  Every stage is
//! specified against a functional model: the executable scanner, parser and
//! code generator each return exactly what the corresponding specification
//! function says for their input.

pub mod ast;
pub mod codegen;
pub mod laws;
pub mod parser;
pub mod scanner;
pub mod text;
