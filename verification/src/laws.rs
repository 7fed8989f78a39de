//! What holds of the operations on terms taken together.

use vstd::prelude::*;

use crate::arena::{address_at, has_room, in_use, index_at};
use crate::atom::law_names_keep_their_numbers;
use crate::encoding::{
    arity_term, boxed_term, integer_term, law_address_round_trip, law_arity_round_trip,
    law_integer_of_term, law_integer_round_trip, list_term,
};
use crate::list::{
    behind, cell, elements, ending, ends_after, has_end, is_cell, law_elements_of_list,
    law_length_is_unique, lemma_list_length, lemma_lists_outlive_growth, list_length, Cons,
};
use crate::process::{truth_name, ProcessView};
use crate::tag::Tag;
use crate::term::{BadArgument, Term, MIN_SMALL_INTEGER};

verus! {

/// The list and the boxed term at the address of the cell number `index` refer to that cell.
proof fn lemma_references(index: nat)
    requires
        has_room(index, 1),
    ensures
        list_term(address_at(index as int)).has_tag(Tag::List),
        index_at(list_term(address_at(index as int)).address()) == index,
        in_use(list_term(address_at(index as int)).address(), index + 1),
        boxed_term(address_at(index as int)).has_tag(Tag::Boxed),
        index_at(boxed_term(address_at(index as int)).address()) == index,
        in_use(boxed_term(address_at(index as int)).address(), index + 1),
{
    law_address_round_trip(address_at(index as int) as usize);
}

/// Every operation that changes a process only adds to it.
pub proof fn law_operations_only_add(
    process: ProcessView,
    name: Seq<char>,
    head: Term,
    tail: Term,
    tuple: Seq<Term>,
)
    ensures
        process.grows_into(process),
        process.grows_into(process.intern(name)),
        process.grows_into(process.with_cell(head, tail)),
        process.grows_into(process.with_tuple(tuple)),
{
    law_names_keep_their_numbers(process.atoms, name);
}

/// What was only added to twice was only added to.
pub proof fn law_growth_is_transitive(first: ProcessView, second: ProcessView, third: ProcessView)
    requires
        first.grows_into(second),
        second.grows_into(third),
    ensures
        first.grows_into(third),
{
}

/// The head and the tail of a list are those that it was made of, however much the process grows
/// afterwards.
pub proof fn law_list_gives_back(
    process: ProcessView,
    head: Term,
    tail: Term,
    later: ProcessView,
)
    requires
        has_room(process.conses.len(), 1),
        process.with_cell(head, tail).grows_into(later),
    ensures
        ({
            let list = list_term(address_at(process.conses.len() as int));
            is_cell(later.conses, list) && cell(later.conses, list) == (Cons { head, tail })
        }),
{
    lemma_references(process.conses.len());
    let list = list_term(address_at(process.conses.len() as int));
    assert(process.with_cell(head, tail).conses[index_at(list.address())] == Cons { head, tail });
}

/// A new list whose tail has an end has one too. Its elements are its head and then the elements of
/// its tail, and it ends as its tail does.
pub proof fn law_elements_of_cons(process: ProcessView, head: Term, tail: Term)
    requires
        has_room(process.conses.len(), 1),
        has_end(process.conses, tail),
    ensures
        ({
            let conses = process.with_cell(head, tail).conses;
            let list = list_term(address_at(process.conses.len() as int));
            &&& has_end(conses, list)
            &&& list_length(conses, list) == list_length(process.conses, tail) + 1
            &&& elements(conses, list) == seq![head] + elements(process.conses, tail)
            &&& ending(conses, list) == ending(process.conses, tail)
        }),
{
    let after = process.with_cell(head, tail);
    law_operations_only_add(process, Seq::empty(), head, tail, Seq::empty());
    law_operations_only_add(after, Seq::empty(), head, tail, Seq::empty());
    law_list_gives_back(process, head, tail, after);
    law_lists_outlive_growth(process, after, tail);
    law_elements_of_list(after.conses, list_term(address_at(process.conses.len() as int)));
}

/// A list that has an end keeps its length, its elements and its ending however much the process
/// grows.
pub proof fn law_lists_outlive_growth(process: ProcessView, later: ProcessView, term: Term)
    requires
        process.grows_into(later),
        has_end(process.conses, term),
    ensures
        has_end(later.conses, term),
        list_length(later.conses, term) == list_length(process.conses, term),
        elements(later.conses, term) == elements(process.conses, term),
        ending(later.conses, term) == ending(process.conses, term),
{
    let count = list_length(process.conses, term);
    lemma_list_length(process.conses, term);
    lemma_lists_outlive_growth(process.conses, later.conses, term, count);
    law_length_is_unique(later.conses, term, count);
}

/// A tuple holds the elements that it was made of, however much the process grows afterwards.
pub proof fn law_tuple_gives_back(process: ProcessView, tuple: Seq<Term>, later: ProcessView)
    requires
        tuple.len() <= Term::MAX_ARITY,
        has_room(process.words.len(), tuple.len() + 1),
        process.with_tuple(tuple).grows_into(later),
    ensures
        ({
            let term = boxed_term(address_at(process.words.len() as int));
            later.is_tuple_of(term, tuple) && term.is_any_tuple(later)
        }),
{
    lemma_references(process.words.len());
    law_arity_round_trip(tuple.len() as int);
    let start = process.words.len() as int;
    let made = process.with_tuple(tuple).words;
    assert(made[start] == arity_term(tuple.len() as int));
    assert forall|i: int| 0 <= i < tuple.len() implies later.words[start + 1 + i] == tuple[i] by {
        assert(made[start + 1 + i] == tuple[i]);
    }
    assert(later.words.subrange(start + 1, start + 1 + tuple.len()) == tuple);
}

/// A tuple stays one, with the same elements, however much the process grows.
pub proof fn law_tuples_outlive_growth(
    process: ProcessView,
    later: ProcessView,
    term: Term,
    tuple: Seq<Term>,
)
    requires
        process.grows_into(later),
        process.is_tuple_of(term, tuple),
    ensures
        later.is_tuple_of(term, tuple),
{
    let start = index_at(term.address());
    assert(later.words.subrange(start + 1, start + 1 + tuple.len()) == process.words.subrange(
        start + 1,
        start + 1 + tuple.len(),
    ));
}

/// Atoms with the same name are the same term, and atoms with different names are not.
pub proof fn law_atoms_are_their_names(
    process: ProcessView,
    a: Term,
    a_name: Seq<char>,
    b: Term,
    b_name: Seq<char>,
)
    requires
        process.wf(),
        process.is_atom_named(a, a_name),
        process.is_atom_named(b, b_name),
    ensures
        a == b <==> a_name == b_name,
{
}

/// An atom keeps its name however much the process grows.
pub proof fn law_atoms_outlive_growth(
    process: ProcessView,
    later: ProcessView,
    term: Term,
    name: Seq<char>,
)
    requires
        process.grows_into(later),
        process.is_atom_named(term, name),
    ensures
        later.is_atom_named(term, name),
{
}

/// The atoms that stand for true and false differ.
pub proof fn law_truths_differ(process: ProcessView, yes: Term, no: Term)
    requires
        process.is_atom_named(yes, truth_name(true)),
        process.is_atom_named(no, truth_name(false)),
    ensures
        yes != no,
{
    reveal_strlit("true");
    reveal_strlit("false");
    assert(truth_name(true).len() == 4 && truth_name(false).len() == 5);
}

/// A term is at most one of an atom, an integer, a list and a tuple.
pub proof fn law_kinds_exclude_each_other(process: ProcessView, term: Term)
    ensures
        term.has_tag(Tag::Atom) ==> !term.has_tag(Tag::SmallInteger) && !term.is_any_list()
            && !term.is_any_tuple(process),
        term.has_tag(Tag::SmallInteger) ==> !term.is_any_list() && !term.is_any_tuple(process),
        term.is_any_list() ==> !term.is_any_tuple(process),
{
}

/// The absolute value of an integer other than the least small integer is its distance from zero.
pub proof fn law_absolute_value(term: Term)
    requires
        term.has_tag(Tag::SmallInteger),
        term.integer() != MIN_SMALL_INTEGER,
    ensures
        term.absolute() matches Ok(absolute) && absolute.has_tag(Tag::SmallInteger)
            && absolute.integer() == if term.integer() < 0 {
            -term.integer()
        } else {
            term.integer()
        },
{
    law_integer_of_term(term);
    if term.integer() < 0 {
        law_integer_round_trip(-term.integer());
    }
}

/// The absolute value of an absolute value is itself.
pub proof fn law_absolute_value_is_idempotent(term: Term)
    ensures
        term.absolute() matches Ok(absolute) ==> absolute.absolute() == Ok::<Term, BadArgument>(
            absolute,
        ),
{
    if term.has_tag(Tag::SmallInteger) && term.integer() != MIN_SMALL_INTEGER {
        law_absolute_value(term);
    }
}

/// An integer and its opposite have the same absolute value.
pub proof fn law_absolute_value_of_opposite(value: int)
    requires
        MIN_SMALL_INTEGER < value < -MIN_SMALL_INTEGER,
    ensures
        integer_term(value).absolute() == integer_term(-value).absolute(),
{
    law_integer_round_trip(value);
    law_integer_round_trip(-value);
}

/// A new process refers to nothing that it does not hold.
pub proof fn law_new_process_is_grounded(atoms: Seq<Seq<char>>)
    ensures
        (ProcessView { atoms, conses: Seq::empty(), words: Seq::empty() }).grounded(),
{
}

/// A term that a process holds is held however much the process grows.
pub proof fn law_terms_stay_held(process: ProcessView, later: ProcessView, term: Term)
    requires
        process.grows_into(later),
        process.holds(term),
    ensures
        later.holds(term),
{
}

/// Looking an atom up leaves a grounded process grounded, and the atom is held.
pub proof fn law_atoms_keep_grounded(process: ProcessView, name: Seq<char>, atom: Term)
    requires
        process.grounded(),
        process.intern(name).is_atom_named(atom, name),
    ensures
        process.intern(name).grounded(),
        process.intern(name).holds(atom),
{
    let after = process.intern(name);
    assert forall|i: int| 0 <= i < after.conses.len() implies #[trigger] after.refers_back(i) by {
        assert(process.refers_back(i));
    }
}

/// A list made of held terms leaves a grounded process grounded, and is held.
pub proof fn law_lists_keep_grounded(process: ProcessView, head: Term, tail: Term)
    requires
        process.grounded(),
        process.holds(head),
        process.holds(tail),
        has_room(process.conses.len(), 1),
    ensures
        process.with_cell(head, tail).grounded(),
        process.with_cell(head, tail).holds(
            list_term(address_at(process.conses.len() as int)),
        ),
{
    lemma_references(process.conses.len());
    let after = process.with_cell(head, tail);
    assert(after.conses.take(process.conses.len() as int) == process.conses);
    assert forall|i: int| 0 <= i < after.conses.len() implies #[trigger] after.refers_back(i) by {
        if i < process.conses.len() {
            assert(process.refers_back(i));
            assert(after.conses.take(i) == process.conses.take(i));
        }
    }
    assert forall|i: int| 0 <= i < after.words.len() implies after.holds(#[trigger] after.words[i]) by {
        assert(process.holds(process.words[i]));
    }
}

/// A tuple made of held terms leaves a grounded process grounded, and is held.
pub proof fn law_tuples_keep_grounded(process: ProcessView, tuple: Seq<Term>)
    requires
        process.grounded(),
        forall|i: int| 0 <= i < tuple.len() ==> process.holds(#[trigger] tuple[i]),
        tuple.len() <= Term::MAX_ARITY,
        has_room(process.words.len(), tuple.len() + 1),
    ensures
        process.with_tuple(tuple).grounded(),
        process.with_tuple(tuple).holds(boxed_term(address_at(process.words.len() as int))),
{
    lemma_references(process.words.len());
    law_arity_round_trip(tuple.len() as int);
    let after = process.with_tuple(tuple);
    let start = process.words.len() as int;
    assert forall|i: int| 0 <= i < after.conses.len() implies #[trigger] after.refers_back(i) by {
        assert(process.refers_back(i));
    }
    assert forall|i: int| 0 <= i < after.words.len() implies after.holds(#[trigger] after.words[i]) by {
        if i < start {
            assert(process.holds(process.words[i]));
        } else if i > start {
            assert(process.holds(tuple[i - start - 1]));
        }
    }
}

/// What a grounded process holds leads to nothing that it does not hold: the head and the tail of
/// a list, and the word of a boxed term, are held too.
pub proof fn law_held_terms_lead_to_held_terms(process: ProcessView, term: Term)
    requires
        process.grounded(),
        process.holds(term),
    ensures
        term.has_tag(Tag::List) ==> process.holds(cell(process.conses, term).head)
            && process.holds(cell(process.conses, term).tail),
        term.has_tag(Tag::Boxed) ==> process.holds(process.boxed(term)),
{
    if term.has_tag(Tag::List) {
        assert(process.refers_back(index_at(term.address())));
    }
}

/// Every list that a grounded process holds has an end, and what it ends with is held too.
pub proof fn law_held_lists_end(process: ProcessView, term: Term)
    requires
        process.grounded(),
        process.holds(term),
    ensures
        has_end(process.conses, term),
        process.holds(ending(process.conses, term)),
{
    let count = lemma_cells_end(process, process.conses.len() as int, term);
    law_length_is_unique(process.conses, term, count);
}

/// The number of cells of a list whose first cell is among the `len` oldest cells of a grounded
/// process.
proof fn lemma_cells_end(process: ProcessView, len: int, term: Term) -> (count: nat)
    requires
        process.grounded(),
        0 <= len <= process.conses.len(),
        process.holds(term),
        term.has_tag(Tag::List) ==> index_at(term.address()) < len,
    ensures
        ends_after(process.conses, term, count),
        process.holds(behind(process.conses, term, count)),
    decreases len,
{
    if term.has_tag(Tag::List) {
        let index = index_at(term.address());
        assert(process.refers_back(index));
        let rest = lemma_cells_end(process, index, cell(process.conses, term).tail);
        rest + 1
    } else {
        0
    }
}

} // verus!
