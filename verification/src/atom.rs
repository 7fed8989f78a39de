//! Atoms: names that are stored once and then spoken of by number.

use vstd::prelude::*;

use crate::tag::Tag;
use crate::term::Term;

verus! {

/// The number of an atom in its table.
#[derive(Clone, Copy, Debug, PartialEq, Eq, Structural)]
pub struct Index(pub usize);

impl Index {
    /// The number of the atom `term`.
    pub fn from(term: &Term) -> (index: Index)
        requires
            term.has_tag(Tag::Atom),
        ensures
            index.0 == term.payload(),
    {
        let tagged = term.tagged;
        assert(tagged >> 6u8 == tagged / 64) by (bit_vector);
        Index(term.tagged >> Tag::ATOM_BIT_COUNT)
    }
}

/// The names after `name` was looked up: `name` stands at the end where it was not there before.
pub open spec fn interned(names: Seq<Seq<char>>, name: Seq<char>) -> Seq<Seq<char>> {
    if names.contains(name) {
        names
    } else {
        names.push(name)
    }
}

/// The names of atoms, each of them once, in the order in which they were first asked for.
pub struct Table {
    names: Vec<String>,
}

impl View for Table {
    type V = Seq<Seq<char>>;

    closed spec fn view(&self) -> Seq<Seq<char>> {
        self.names@.map_values(|name: String| name@)
    }
}

impl Table {
    /// A table without atoms.
    pub fn new() -> (table: Table)
        ensures
            table@ == Seq::<Seq<char>>::empty(),
    {
        Table { names: Vec::new() }
    }

    /// The number of the atom called `name`, which is put into the table where it is missing.
    pub fn find_or_insert(&mut self, name: &str) -> (index: Index)
        ensures
            final(self)@ == interned(old(self)@, name@),
            index.0 < final(self)@.len(),
            final(self)@[index.0 as int] == name@,
            forall|earlier: int| 0 <= earlier < index.0 ==> final(self)@[earlier] != name@,
    {
        let wanted = name.to_owned();
        let mut next: usize = 0;
        while next < self.names.len()
            invariant
                next <= self.names@.len(),
                *self == *old(self),
                wanted@ == name@,
                forall|earlier: int| 0 <= earlier < next ==> self@[earlier] != name@,
            decreases self.names@.len() - next,
        {
            if self.names[next] == wanted {
                assert(self@[next as int] == name@);
                return Index(next);
            }
            assert(self@[next as int] != name@);
            next = next + 1;
        }
        assert(!self@.contains(name@));
        self.names.push(wanted);
        assert(self@ == old(self)@.push(name@));
        Index(next)
    }
}

/// Looking a name up keeps every name at its number and adds none a second time.
pub proof fn law_names_keep_their_numbers(names: Seq<Seq<char>>, name: Seq<char>)
    ensures
        interned(names, name).contains(name),
        names.is_prefix_of(interned(names, name)),
        names.no_duplicates() ==> interned(names, name).no_duplicates(),
{
    if !names.contains(name) {
        assert(names.push(name)[names.len() as int] == name);
    }
}

/// Looking a name up a second time changes nothing.
pub proof fn law_lookup_is_idempotent(names: Seq<Seq<char>>, name: Seq<char>)
    ensures
        interned(interned(names, name), name) == interned(names, name),
{
    law_names_keep_their_numbers(names, name);
}

} // verus!
