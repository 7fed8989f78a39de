//! What the operations promise, call by call: each law speaks of what a call gives, in terms of
//! words, names and elements, or of how the results of several calls relate.

pub mod answers;
pub mod arenas;
pub mod comparing;
pub mod lists;
pub mod names;
pub mod tags;
pub mod text;
pub mod tuples;
pub mod words;
