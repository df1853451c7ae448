//! Resolution of the shell command that "runs" a file: a layered lookup in a
//! configuration of command templates, placeholder substitution, shell-like
//! tokenization, and the classification of a finished process.

pub mod text;
pub mod template;
pub mod error;
pub mod tokenizer;
pub mod mapping;
pub mod config;
pub mod project;
pub mod paths;
pub mod resolver;
pub mod runner;
pub mod document;
