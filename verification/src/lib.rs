//! Finds the decorated functions of a Python source file and reports each with its name, its
//! line and its parameters, without running anything.
//!
//! - [`text`]: byte ranges of a source text, and looking for one text in another.
//! - [`syntax`]: a syntax tree as plain data.
//! - [`provider`]: the tree of a Python source, from tree-sitter.
//! - [`markers`]: which decorated definitions are reported, by the text of their decorators.
//! - [`params`]: the parameters of a definition.
//! - [`functions`]: the functions of a tree.
//! - [`scan`]: from a source text to its functions.
//! - [`protocol`]: requests and answers, one line at a time.

pub mod functions;
pub mod markers;
pub mod params;
pub mod protocol;
pub mod provider;
pub mod scan;
pub mod syntax;
pub mod text;
