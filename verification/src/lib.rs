//! A verified compiler core for the MEML markup language.
//!
//! MEML is a small templating source language that compiles to XML-like
//! output. The library parses MEML text into a labeled node tree, resolves
//! named definitions (constants, object templates, functions, macros) under a
//! two-tier visibility model (file-local pools plus a cross-file pool of
//! exported names), expands macro calls by textual substitution and
//! re-parsing, builds an output object tree, and serializes it
//! deterministically. A manifest module supplies the decision logic of the
//! multi-file build orchestrator (section validation, input collection, and
//! the diff-based write decision); the surrounding I/O lives outside the
//! library.

pub mod defs;
pub mod error;
pub mod function;
pub mod macro_fn;
pub mod manifest;
pub mod node;
pub mod object;
pub mod parser;
pub mod string;
pub mod text;
