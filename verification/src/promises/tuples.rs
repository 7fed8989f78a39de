//! Promises on tuples and boxed terms.

use vstd::prelude::*;

use crate::arena::TypedArena;
use crate::process::Process;
use crate::term::Term;

verus! {

/// Making a tuple adds its header and then its elements, in order, to the words of the process, and
/// nothing else. The tuple refers to its header.
pub proof fn law_slice_to_tuple_adds_header_and_elements(
    slice: &[Term],
    process: &mut Process,
    tuple: Term,
)
    requires
        64 * slice@.len() <= usize::MAX,
        4 * (old(process)@.words.len() + slice@.len() + 2) <= usize::MAX,
        call_ensures(Term::slice_to_tuple, (slice, process), tuple),
    ensures
        tuple.tagged % 4 == 0b10,
        tuple.tagged as int / 4 - 1 == old(process)@.words.len(),
        final(process)@.words.len() == old(process)@.words.len() + 1 + slice@.len(),
        old(process)@.words.is_prefix_of(final(process)@.words),
        final(process)@.words[tuple.tagged as int / 4 - 1].tagged == 64 * slice@.len(),
        forall|i: int|
            0 <= i < slice@.len() ==> final(process)@.words[tuple.tagged as int / 4 + i]
                == #[trigger] slice@[i],
        final(process)@.atoms == old(process)@.atoms,
        final(process)@.conses == old(process)@.conses,
{
}

/// The header of a tuple tells how many elements it was made of, and they are found behind it, also
/// when words were added since.
pub proof fn law_tuples_give_back_their_elements(
    slice: &[Term],
    process: &mut Process,
    tuple: Term,
    later: &Process,
    header: &Term,
    arity: usize,
    address: usize,
    offset: usize,
    element: &Term,
)
    requires
        64 * slice@.len() <= usize::MAX,
        4 * (old(process)@.words.len() + slice@.len() + 2) <= usize::MAX,
        call_ensures(Term::slice_to_tuple, (slice, process), tuple),
        final(process)@.words.is_prefix_of(later@.words),
        call_ensures(Term::unbox, (&tuple, later), header),
        call_ensures(Term::to_usize, (*header,), arity),
        call_ensures(Term::boxed_address, (&tuple,), address),
        1 <= offset <= slice@.len(),
        call_ensures(Process::word_behind, (later, address, offset), element),
    ensures
        arity == slice@.len(),
        *element == slice@[offset - 1],
{
    law_slice_to_tuple_adds_header_and_elements(slice, process, tuple);
    let start = old(process)@.words.len() as int;
    assert(later@.words[start] == final(process)@.words[start]);
    assert(later@.words[start + offset] == final(process)@.words[start + offset]);
    assert(final(process)@.words[tuple.tagged as int / 4 + (offset - 1)] == slice@[offset - 1]);
}

/// A tuple that was made is one, also when words were added since.
pub proof fn law_made_tuples_are_tuples(
    slice: &[Term],
    process: &mut Process,
    tuple: Term,
    later: &mut Process,
    truth: Term,
)
    requires
        64 * slice@.len() <= usize::MAX,
        4 * (old(process)@.words.len() + slice@.len() + 2) <= usize::MAX,
        call_ensures(Term::slice_to_tuple, (slice, process), tuple),
        final(process)@.words.is_prefix_of(old(later)@.words),
        call_ensures(Term::is_tuple, (&tuple, later), truth),
    ensures
        final(later)@.atoms[truth.tagged as int / 64] == "true"@,
{
    law_slice_to_tuple_adds_header_and_elements(slice, process, tuple);
    let start = old(process)@.words.len() as int;
    assert(old(later)@.words[start] == final(process)@.words[start]);
}

/// A boxed term stands for the word that its address counts to.
pub proof fn law_boxes_stand_for_their_words(term: Term, process: &Process, word: &Term)
    requires
        term.tagged % 4 == 0b10,
        4 < term.tagged,
        term.tagged as int / 4 <= process@.words.len(),
        call_ensures(Term::unbox, (&term, process), word),
    ensures
        *word == process@.words[term.tagged as int / 4 - 1],
{
}

/// Any terms can be made into a tuple while their number fits into a header and there are addresses
/// left, and every boxed term that refers to a word of the process can be unboxed.
pub proof fn law_tuples_can_be_made_and_boxes_opened(
    slice: &[Term],
    process: &mut Process,
    term: Term,
    shared: &Process,
)
    ensures
        64 * slice@.len() <= usize::MAX && 4 * (old(process)@.words.len() + slice@.len() + 2)
            <= usize::MAX ==> call_requires(Term::slice_to_tuple, (slice, process)),
        term.tagged % 4 == 0b10 && 4 < term.tagged && term.tagged as int / 4 <= shared@.words.len()
            ==> call_requires(Term::unbox, (&term, shared)),
{
}

/// A process puts a tuple behind the words that it has, its header first, changes nothing else, and
/// finds every word at its address.
pub proof fn law_processes_keep_words(
    slice: &[Term],
    process: &mut Process,
    address: usize,
    shared: &Process,
    at: usize,
    offset: usize,
    word: &Term,
    behind: &Term,
)
    requires
        64 * slice@.len() <= usize::MAX,
        call_ensures(Process::slice_to_tuple, (process, slice), address),
        at % 4 == 0,
        4 <= at,
        at as int / 4 + offset <= shared@.words.len(),
        call_ensures(Process::word, (shared, at), word),
        call_ensures(Process::word_behind, (shared, at, offset), behind),
    ensures
        address == 4 * (old(process)@.words.len() + 1),
        final(process)@.words.len() == old(process)@.words.len() + 1 + slice@.len(),
        old(process)@.words.is_prefix_of(final(process)@.words),
        final(process)@.words[old(process)@.words.len() as int].tagged == 64 * slice@.len(),
        forall|i: int|
            0 <= i < slice@.len() ==> final(process)@.words[old(process)@.words.len() + 1 + i]
                == #[trigger] slice@[i],
        final(process)@.atoms == old(process)@.atoms,
        final(process)@.conses == old(process)@.conses,
        *word == shared@.words[at as int / 4 - 1],
        *behind == shared@.words[at as int / 4 - 1 + offset],
        call_requires(Process::word, (shared, at)),
        call_requires(Process::word_behind, (shared, at, offset)),
{
}

/// The terms of a slice are put behind those of an arena, in order, from the address that is given.
pub proof fn law_alloc_slice_keeps_the_order(
    slice: &[Term],
    arena: &mut TypedArena<Term>,
    address: usize,
)
    requires
        call_ensures(Term::alloc_slice, (slice, arena), address),
    ensures
        address % 4 == 0,
        address as int / 4 - 1 == old(arena)@.len(),
        final(arena)@.len() == old(arena)@.len() + slice@.len(),
        old(arena)@.is_prefix_of(final(arena)@),
        forall|i: int|
            0 <= i < slice@.len() ==> final(arena)@[address as int / 4 - 1 + i]
                == #[trigger] slice@[i],
{
}

} // verus!
