//! A small compiler that turns a parenthesized description of reusable CSS
//! components (electrons, atoms, molecules) into generated CSS text plus a
//! per-component export table of class names, with deduplication and
//! cross-component inheritance resolved through a dependency graph.

pub mod assoc;
pub mod atom;
pub mod css;
pub mod electron;
pub mod lexer;
pub mod molecule;
pub mod organism;
pub mod parser;
pub mod runtime;
pub mod strutil;

