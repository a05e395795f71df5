use vstd::prelude::*;

pub mod text;
pub mod utils;
pub mod value;
pub mod error;
pub mod ast;
pub mod registry;
pub mod host;
pub mod format;
pub mod state;
pub mod ops;
pub mod semantics;
pub mod strings;
pub mod equality;
pub mod builtins;
pub mod interp;
pub mod statements;
pub mod nodes;
pub mod toplevel;
pub mod modules;
pub mod engine;
pub mod resolver;
pub mod laws;
pub mod scoping;
pub mod builder;
pub mod stmt_builder;
pub mod file_builder;

verus! {
} // verus!
