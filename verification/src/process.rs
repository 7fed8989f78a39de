//! A process and its heap.

use vstd::prelude::*;

use crate::arena::{address_at, has_room, in_use, index_at, TypedArena};
use crate::atom::interned;
use crate::encoding::arity_term;
use crate::environment::Environment;
use crate::list::{is_cell, Cons};
use crate::tag::Tag;
use crate::term::{Term, MAX_ATOM_INDEX};

verus! {

/// What a process holds.
#[verifier::ext_equal]
pub struct ProcessView {
    /// The names of the atoms, by number.
    pub atoms: Seq<Seq<char>>,
    /// The cells of lists.
    pub conses: Seq<Cons>,
    /// The words that boxed terms stand for: of each tuple its header and then its elements.
    pub words: Seq<Term>,
}

impl ProcessView {
    /// Every atom has one number, and every number fits into a term.
    pub open spec fn wf(self) -> bool {
        self.atoms.no_duplicates() && self.atoms.len() <= MAX_ATOM_INDEX + 1
    }

    /// Whether there is an atom called `name` or a number left for it.
    pub open spec fn can_intern(self, name: Seq<char>) -> bool {
        self.atoms.contains(name) || self.atoms.len() <= MAX_ATOM_INDEX
    }

    /// The process after the atom called `name` was looked up.
    pub open spec fn intern(self, name: Seq<char>) -> ProcessView {
        ProcessView { atoms: interned(self.atoms, name), ..self }
    }

    /// Whether `term` is the atom called `name`.
    pub open spec fn is_atom_named(self, term: Term, name: Seq<char>) -> bool {
        &&& term.has_tag(Tag::Atom)
        &&& term.payload() < self.atoms.len()
        &&& self.atoms[term.payload()] == name
    }

    /// Whether `term` is boxed and what it stands for is one of the process's words.
    pub open spec fn is_box(self, term: Term) -> bool {
        term.has_tag(Tag::Boxed) && in_use(term.address(), self.words.len())
    }

    /// The word that the boxed `term` stands for.
    pub open spec fn boxed(self, term: Term) -> Term
        recommends
            self.is_box(term),
    {
        self.words[index_at(term.address())]
    }

    /// Whether `term` stands for the header of a tuple, and the tuple's elements follow it.
    pub open spec fn is_tuple(self, term: Term) -> bool {
        &&& self.is_box(term)
        &&& self.boxed(term).has_tag(Tag::Arity)
        &&& index_at(term.address()) + self.arity(term) < self.words.len()
    }

    /// The number of elements of the tuple `term`.
    pub open spec fn arity(self, term: Term) -> int {
        self.boxed(term).payload()
    }

    /// The element number `index` of the tuple `term`.
    pub open spec fn element(self, term: Term, index: int) -> Term {
        self.words[index_at(term.address()) + 1 + index]
    }

    /// Whether `term` is a tuple with the elements `elements`.
    pub open spec fn is_tuple_of(self, term: Term, elements: Seq<Term>) -> bool {
        let start = index_at(term.address());
        &&& self.is_box(term)
        &&& start + 1 + elements.len() <= self.words.len()
        &&& self.words[start] == arity_term(elements.len() as int)
        &&& self.words.subrange(start + 1, start + 1 + elements.len()) == elements
    }

    /// The process with one more cell of a list.
    pub open spec fn with_cell(self, head: Term, tail: Term) -> ProcessView {
        ProcessView { conses: self.conses.push(Cons { head, tail }), ..self }
    }

    /// The process with the words of one more tuple.
    pub open spec fn with_tuple(self, elements: Seq<Term>) -> ProcessView {
        ProcessView {
            words: self.words.push(arity_term(elements.len() as int)) + elements,
            ..self
        }
    }

    /// Whether `term` carries a tag and, where it is a list or boxed, refers to a cell or a word of
    /// the process.
    pub open spec fn holds(self, term: Term) -> bool {
        &&& term.well_tagged()
        &&& term.has_tag(Tag::List) ==> is_cell(self.conses, term)
        &&& term.has_tag(Tag::Boxed) ==> self.is_box(term)
    }

    /// Whether the head and the tail of the cell number `index` refer to nothing but words and
    /// older cells.
    pub open spec fn refers_back(self, index: int) -> bool {
        let older = ProcessView { conses: self.conses.take(index), ..self };
        older.holds(self.conses[index].head) && older.holds(self.conses[index].tail)
    }

    /// Whether the heap refers to nothing that it does not hold, and no list leads back into
    /// itself.
    pub open spec fn grounded(self) -> bool {
        &&& forall|i: int| 0 <= i < self.conses.len() ==> #[trigger] self.refers_back(i)
        &&& forall|i: int| 0 <= i < self.words.len() ==> self.holds(#[trigger] self.words[i])
    }

    /// Whether `later` holds all that this process holds, under the same numbers and addresses.
    pub open spec fn grows_into(self, later: ProcessView) -> bool {
        &&& self.atoms.is_prefix_of(later.atoms)
        &&& self.conses.is_prefix_of(later.conses)
        &&& self.words.is_prefix_of(later.words)
    }
}

/// The owner of terms: their heap, and the environment that names their atoms.
pub struct Process {
    environment: Environment,
    cons_arena: TypedArena<Cons>,
    term_arena: TypedArena<Term>,
}

impl View for Process {
    type V = ProcessView;

    closed spec fn view(&self) -> ProcessView {
        ProcessView {
            atoms: self.environment@,
            conses: self.cons_arena@,
            words: self.term_arena@,
        }
    }
}

/// A value that can be turned into a term, or another `T`, of a process.
pub trait IntoProcess<T>: Sized {
    /// Whether the process can take the value.
    spec fn fits(self, process: ProcessView) -> bool;

    /// Whether `value` is what this becomes, and `after` what the process `before` becomes.
    spec fn becomes(self, before: ProcessView, after: ProcessView, value: T) -> bool;

    /// Turns this into a `T` of `process`.
    fn into_process(self, process: &mut Process) -> (value: T)
        requires
            self.fits(old(process)@),
        ensures
            self.becomes(old(process)@, final(process)@, value),
    ;
}

/// The name of the atom that stands for `truth`.
pub open spec fn truth_name(truth: bool) -> Seq<char> {
    if truth {
        "true"@
    } else {
        "false"@
    }
}

impl IntoProcess<Term> for bool {
    open spec fn fits(self, process: ProcessView) -> bool {
        process.wf() && process.can_intern(truth_name(self))
    }

    open spec fn becomes(self, before: ProcessView, after: ProcessView, term: Term) -> bool {
        &&& after == before.intern(truth_name(self))
        &&& after.wf()
        &&& after.is_atom_named(term, truth_name(self))
    }

    /// The atom `true` or the atom `false`.
    fn into_process(self, process: &mut Process) -> (term: Term) {
        if self {
            process.find_or_insert_atom("true")
        } else {
            process.find_or_insert_atom("false")
        }
    }
}

impl Process {
    /// A process with an empty heap.
    pub fn new(environment: Environment) -> (process: Process)
        ensures
            process@ == (ProcessView {
                atoms: environment@,
                conses: Seq::empty(),
                words: Seq::empty(),
            }),
    {
        Process { environment, cons_arena: TypedArena::new(), term_arena: TypedArena::new() }
    }

    /// The atom called `name`, which is made where there is none.
    pub fn find_or_insert_atom(&mut self, name: &str) -> (term: Term)
        requires
            old(self)@.wf(),
            old(self)@.can_intern(name@),
        ensures
            final(self)@.wf(),
            final(self)@ == old(self)@.intern(name@),
            final(self)@.is_atom_named(term, name@),
    {
        proof {
            crate::atom::law_names_keep_their_numbers(self@.atoms, name@);
        }
        let index = self.environment.find_or_insert_atom(name);
        Term::from(index)
    }

    /// The number of cells fits into a word.
    pub proof fn lemma_cells_are_countable(&self)
        ensures
            self@.conses.len() <= usize::MAX,
    {
        self.cons_arena.lemma_cells_are_countable();
    }

    /// Puts a cell of a list into the heap and returns its address.
    pub fn cons(&mut self, head: Term, tail: Term) -> (address: usize)
        requires
            has_room(old(self)@.conses.len(), 1),
        ensures
            address == address_at(old(self)@.conses.len() as int),
            final(self)@ == old(self)@.with_cell(head, tail),
    {
        self.cons_arena.alloc_value(Cons::new(head, tail))
    }

    /// Puts a tuple with the elements `slice` into the heap, its header first, and returns the
    /// header's address.
    pub fn slice_to_tuple(&mut self, slice: &[Term]) -> (address: usize)
        requires
            slice@.len() <= Term::MAX_ARITY,
            has_room(old(self)@.words.len(), slice@.len() + 1),
        ensures
            address == address_at(old(self)@.words.len() as int),
            final(self)@ == old(self)@.with_tuple(slice@),
    {
        let address = self.term_arena.alloc_value(Term::arity(slice.len()));
        Term::alloc_slice(slice, &mut self.term_arena);
        address
    }

    /// The cell of a list at `address`.
    pub fn cell(&self, address: usize) -> (cons: &Cons)
        requires
            in_use(address as int, self@.conses.len()),
        ensures
            *cons == self@.conses[index_at(address as int)],
    {
        self.cons_arena.get(address)
    }

    /// The word at `address`.
    pub fn word(&self, address: usize) -> (term: &Term)
        requires
            in_use(address as int, self@.words.len()),
        ensures
            *term == self@.words[index_at(address as int)],
    {
        self.term_arena.get(address)
    }

    /// The word that is `offset` words behind the one at `address`.
    pub fn word_behind(&self, address: usize, offset: usize) -> (term: &Term)
        requires
            in_use(address as int, self@.words.len()),
            index_at(address as int) + offset < self@.words.len(),
        ensures
            *term == self@.words[index_at(address as int) + offset],
    {
        self.term_arena.get_behind(address, offset)
    }
}

} // verus!
