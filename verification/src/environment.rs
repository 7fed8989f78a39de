//! What the processes of a runtime have in common.

use vstd::prelude::*;

use crate::atom::{interned, Index, Table};

verus! {

/// The part of a runtime that belongs to no single process: the names of its atoms.
pub struct Environment {
    atom_table: Table,
}

impl View for Environment {
    type V = Seq<Seq<char>>;

    closed spec fn view(&self) -> Seq<Seq<char>> {
        self.atom_table@
    }
}

impl Environment {
    /// An environment without atoms.
    pub fn new() -> (environment: Environment)
        ensures
            environment@ == Seq::<Seq<char>>::empty(),
    {
        Environment { atom_table: Table::new() }
    }

    /// The number of the atom called `name`, which is made where there is none.
    pub fn find_or_insert_atom(&mut self, name: &str) -> (index: Index)
        ensures
            final(self)@ == interned(old(self)@, name@),
            index.0 < final(self)@.len(),
            final(self)@[index.0 as int] == name@,
            forall|earlier: int| 0 <= earlier < index.0 ==> final(self)@[earlier] != name@,
    {
        self.atom_table.find_or_insert(name)
    }
}

} // verus!
