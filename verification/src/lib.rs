//! Core of a compiler for a small systems language targeting x86-64.
//!
//! The crate covers the middle and back end of the pipeline: the typed
//! abstract syntax tree (`ast`), the type checker (`typecheck`), the code
//! generator (`codegen`), and the writer and reader of the bespoke `AURA`
//! container format (`binary`). The lexer, the parser and all file I/O are
//! external collaborators: callers hand a finished `ast::Program` to
//! `typecheck::typecheck` and `codegen::generate`, and turn the byte vectors
//! produced by `binary` into files themselves.

pub mod ast;
pub mod binary;
pub mod codegen;
pub mod typecheck;
