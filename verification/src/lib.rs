//! Tagged terms of an Erlang-like runtime: one machine word holds either a value itself or the
//! address of a cell in the heap of the process that owns it.

pub mod arena;
pub mod atom;
pub mod binary;
pub mod compare;
pub mod encoding;
pub mod environment;
pub mod equality;
pub mod laws;
pub mod list;
pub mod process;
pub mod promises;
pub mod tag;
pub mod term;
pub mod value;
