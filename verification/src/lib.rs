//! Assembly and emission of generated C, C++ and Cython declaration files.
//!
//! A [`bindings::Bindings`] value holds the finished description of a
//! library's public surface together with its [`config::Config`]. It renders
//! the declaration file into a byte sink, answers questions about the structs
//! behind alias chains, and lays out the dependency file that lets a build
//! system rebuild the output when an input changes.
//!
//! Every function states what it computes over plain mathematical values:
//! [`render`] says what the generated file holds, [`resolve`] what an alias
//! chain leads to and how field orders merge, [`depfile`] what the
//! dependency file holds. [`laws`] and [`chains`] prove what follows from
//! these definitions.
pub mod text;
pub mod config;
pub mod writer;
pub mod ir;
pub mod resolve;
pub mod chains;
pub mod bindings;
pub mod render;
pub mod emit;
pub mod depfile;
pub mod laws;
