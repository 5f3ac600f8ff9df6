//! Inferox: a GGUF model-file parser, model wiring and a byte-level BPE
//! tokenizer, with machine-checked contracts.
//!
//! The floating-point compute kernels live outside this library; everything
//! that decides, parses or indexes lives here.
pub mod gguf;
pub mod model;
pub mod ops;
pub mod text;
pub mod tokenizer;

