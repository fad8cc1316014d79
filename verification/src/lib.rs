//! Directive handling for compiler test files.
//!
//! A test file carries its metadata as specially marked comment lines
//! ("directives") in its leading comment block.  This library extracts those
//! lines, parses them, checks them against a registry of known directives and
//! a catalog of known platforms, and lowers the directives that passed into
//! one strongly typed set of test properties per revision.

pub mod argument;
pub mod catalog;
pub mod diagnostic;
pub mod directive;
pub mod distance;
pub mod lower;
pub mod mode;
pub mod parser;
pub mod pipeline;
pub mod registry;
pub mod scanner;
pub mod text;
pub mod theorems;
pub mod validate;
