//! Promises on the answers to questions: the atoms `true` and `false`.

use vstd::prelude::*;

use crate::process::{IntoProcess, Process};
use crate::term::Term;

verus! {

/// A truth becomes the atom that is named after it. That atom is added to the process where it is
/// missing, and nothing else changes.
pub proof fn law_truths_become_their_atoms(truth: bool, process: &mut Process, term: Term)
    requires
        call_ensures(<bool as IntoProcess<Term>>::into_process, (truth, process), term),
    ensures
        term.tagged % 64 == 0b00_10_11,
        term.tagged as int / 64 < final(process)@.atoms.len(),
        truth ==> final(process)@.atoms[term.tagged as int / 64] == "true"@,
        !truth ==> final(process)@.atoms[term.tagged as int / 64] == "false"@,
        old(process)@.atoms.is_prefix_of(final(process)@.atoms),
        final(process)@.atoms.len() <= old(process)@.atoms.len() + 1,
        final(process)@.atoms.len() > old(process)@.atoms.len() ==> term.tagged as int / 64
            == old(process)@.atoms.len(),
        final(process)@.atoms.no_duplicates(),
        final(process)@.conses == old(process)@.conses,
        final(process)@.words == old(process)@.words,
{
}

/// The answers to a question that holds and to one that does not are different terms, and answers
/// alike are the same term, also where atoms were made between the two.
pub proof fn law_answers_tell_truths_apart(
    first: bool,
    before: &mut Process,
    of_first: Term,
    second: bool,
    after: &mut Process,
    of_second: Term,
)
    requires
        call_ensures(<bool as IntoProcess<Term>>::into_process, (first, before), of_first),
        call_ensures(<bool as IntoProcess<Term>>::into_process, (second, after), of_second),
        final(before)@.atoms.is_prefix_of(old(after)@.atoms),
    ensures
        of_first.tagged == of_second.tagged <==> first == second,
{
    law_truths_become_their_atoms(first, before, of_first);
    law_truths_become_their_atoms(second, after, of_second);
    reveal_strlit("true");
    reveal_strlit("false");
    assert("true"@.len() == 4 && "false"@.len() == 5);
    let (i, j) = (of_first.tagged as int / 64, of_second.tagged as int / 64);
    assert(final(after)@.atoms[i] == final(before)@.atoms[i]);
    if first == second {
        assert(i == j);
    }
}

/// Every process whose atoms are all different can take a truth that has its atom already or that
/// there is a number left for.
pub proof fn law_truths_fit(truth: bool, process: &mut Process)
    requires
        old(process)@.atoms.no_duplicates(),
        64 * old(process)@.atoms.len() <= usize::MAX - 63 || 64 * old(process)@.atoms.len()
            <= usize::MAX + 1 && old(process)@.atoms.contains(
            if truth {
                "true"@
            } else {
                "false"@
            },
        ),
    ensures
        call_requires(<bool as IntoProcess<Term>>::into_process, (truth, process)),
{
}

/// The question whether a term is an atom is answered by the atom `true` where it is, and else by
/// the atom `false`. That atom is added to the process where it is missing, and nothing else
/// changes.
pub proof fn law_is_atom_answers(term: Term, process: &mut Process, truth: Term)
    requires
        call_ensures(Term::is_atom, (&term, process), truth),
    ensures
        truth.tagged % 64 == 0b00_10_11,
        truth.tagged as int / 64 < final(process)@.atoms.len(),
        term.tagged % 64 == 0b00_10_11
            ==> final(process)@.atoms[truth.tagged as int / 64] == "true"@,
        term.tagged % 64 != 0b00_10_11
            ==> final(process)@.atoms[truth.tagged as int / 64] == "false"@,
        old(process)@.atoms.is_prefix_of(final(process)@.atoms),
        final(process)@.atoms.len() <= old(process)@.atoms.len() + 1,
        final(process)@.atoms.len() > old(process)@.atoms.len() ==> truth.tagged as int / 64
            == old(process)@.atoms.len(),
        final(process)@.atoms.no_duplicates(),
        final(process)@.conses == old(process)@.conses,
        final(process)@.words == old(process)@.words,
{
}

/// Every tagged term can be asked whether it is an atom.
pub proof fn law_is_atom_can_be_asked(term: Term, process: &mut Process)
    requires
        term.tagged % 64 != 0b1011_00,
        term.tagged % 64 != 0b10_10_11,
        old(process)@.atoms.no_duplicates(),
        64 * old(process)@.atoms.len() <= usize::MAX - 63,
    ensures
        call_requires(Term::is_atom, (&term, process)),
{
}

/// The question whether a term is the empty list is answered by the atom `true` where it is, and
/// else by the atom `false`. That atom is added to the process where it is missing, and nothing
/// else changes.
pub proof fn law_is_empty_list_answers(term: Term, process: &mut Process, truth: Term)
    requires
        call_ensures(Term::is_empty_list, (&term, process), truth),
    ensures
        truth.tagged % 64 == 0b00_10_11,
        truth.tagged as int / 64 < final(process)@.atoms.len(),
        term.tagged % 64 == 0b11_10_11
            ==> final(process)@.atoms[truth.tagged as int / 64] == "true"@,
        term.tagged % 64 != 0b11_10_11
            ==> final(process)@.atoms[truth.tagged as int / 64] == "false"@,
        old(process)@.atoms.is_prefix_of(final(process)@.atoms),
        final(process)@.atoms.len() <= old(process)@.atoms.len() + 1,
        final(process)@.atoms.len() > old(process)@.atoms.len() ==> truth.tagged as int / 64
            == old(process)@.atoms.len(),
        final(process)@.atoms.no_duplicates(),
        final(process)@.conses == old(process)@.conses,
        final(process)@.words == old(process)@.words,
{
}

/// Every tagged term can be asked whether it is the empty list.
pub proof fn law_is_empty_list_can_be_asked(term: Term, process: &mut Process)
    requires
        term.tagged % 64 != 0b1011_00,
        term.tagged % 64 != 0b10_10_11,
        old(process)@.atoms.no_duplicates(),
        64 * old(process)@.atoms.len() <= usize::MAX - 63,
    ensures
        call_requires(Term::is_empty_list, (&term, process)),
{
}

/// The question whether a term is an integer is answered by the atom `true` where it is, and else
/// by the atom `false`. That atom is added to the process where it is missing, and nothing else
/// changes.
pub proof fn law_is_integer_answers(term: Term, process: &mut Process, truth: Term)
    requires
        call_ensures(Term::is_integer, (&term, process), truth),
    ensures
        truth.tagged % 64 == 0b00_10_11,
        truth.tagged as int / 64 < final(process)@.atoms.len(),
        term.tagged % 16 == 0b11_11
            ==> final(process)@.atoms[truth.tagged as int / 64] == "true"@,
        term.tagged % 16 != 0b11_11
            ==> final(process)@.atoms[truth.tagged as int / 64] == "false"@,
        old(process)@.atoms.is_prefix_of(final(process)@.atoms),
        final(process)@.atoms.len() <= old(process)@.atoms.len() + 1,
        final(process)@.atoms.len() > old(process)@.atoms.len() ==> truth.tagged as int / 64
            == old(process)@.atoms.len(),
        final(process)@.atoms.no_duplicates(),
        final(process)@.conses == old(process)@.conses,
        final(process)@.words == old(process)@.words,
{
}

/// Every tagged term can be asked whether it is an integer.
pub proof fn law_is_integer_can_be_asked(term: Term, process: &mut Process)
    requires
        term.tagged % 64 != 0b1011_00,
        term.tagged % 64 != 0b10_10_11,
        old(process)@.atoms.no_duplicates(),
        64 * old(process)@.atoms.len() <= usize::MAX - 63,
    ensures
        call_requires(Term::is_integer, (&term, process)),
{
}

/// The question whether a term is a list, empty or not, is answered by the atom `true` where it
/// is, and else by the atom `false`. That atom is added to the process where it is missing, and
/// nothing else changes.
pub proof fn law_is_list_answers(term: Term, process: &mut Process, truth: Term)
    requires
        call_ensures(Term::is_list, (&term, process), truth),
    ensures
        truth.tagged % 64 == 0b00_10_11,
        truth.tagged as int / 64 < final(process)@.atoms.len(),
        term.tagged % 4 == 0b01 || term.tagged % 64 == 0b11_10_11
            ==> final(process)@.atoms[truth.tagged as int / 64] == "true"@,
        term.tagged % 4 != 0b01 && term.tagged % 64 != 0b11_10_11
            ==> final(process)@.atoms[truth.tagged as int / 64] == "false"@,
        old(process)@.atoms.is_prefix_of(final(process)@.atoms),
        final(process)@.atoms.len() <= old(process)@.atoms.len() + 1,
        final(process)@.atoms.len() > old(process)@.atoms.len() ==> truth.tagged as int / 64
            == old(process)@.atoms.len(),
        final(process)@.atoms.no_duplicates(),
        final(process)@.conses == old(process)@.conses,
        final(process)@.words == old(process)@.words,
{
}

/// Every tagged term can be asked whether it is a list, empty or not.
pub proof fn law_is_list_can_be_asked(term: Term, process: &mut Process)
    requires
        term.tagged % 64 != 0b1011_00,
        term.tagged % 64 != 0b10_10_11,
        old(process)@.atoms.no_duplicates(),
        64 * old(process)@.atoms.len() <= usize::MAX - 63,
    ensures
        call_requires(Term::is_list, (&term, process)),
{
}

/// The question whether a term is a tuple is answered by the atom `true` where it is, and else by
/// the atom `false`. A tuple is a boxed term that stands for the header of one. That atom is added
/// to the process where it is missing, and nothing else changes.
pub proof fn law_is_tuple_answers(term: Term, process: &mut Process, truth: Term)
    requires
        call_ensures(Term::is_tuple, (&term, process), truth),
    ensures
        truth.tagged % 64 == 0b00_10_11,
        truth.tagged as int / 64 < final(process)@.atoms.len(),
        term.tagged % 4 == 0b10 && old(process)@.words[term.tagged as int / 4 - 1].tagged % 64 == 0
            ==> final(process)@.atoms[truth.tagged as int / 64] == "true"@,
        term.tagged % 4 != 0b10 || old(process)@.words[term.tagged as int / 4 - 1].tagged % 64 != 0
            ==> final(process)@.atoms[truth.tagged as int / 64] == "false"@,
        old(process)@.atoms.is_prefix_of(final(process)@.atoms),
        final(process)@.atoms.len() <= old(process)@.atoms.len() + 1,
        final(process)@.atoms.len() > old(process)@.atoms.len() ==> truth.tagged as int / 64
            == old(process)@.atoms.len(),
        final(process)@.atoms.no_duplicates(),
        final(process)@.conses == old(process)@.conses,
        final(process)@.words == old(process)@.words,
{
}

/// Every tagged term can be asked whether it is a tuple.
pub proof fn law_is_tuple_can_be_asked(term: Term, process: &mut Process)
    requires
        term.tagged % 64 != 0b1011_00,
        term.tagged % 64 != 0b10_10_11,
        old(process)@.atoms.no_duplicates(),
        64 * old(process)@.atoms.len() <= usize::MAX - 63,
        term.tagged % 4 == 0b10 ==> 4 < term.tagged && term.tagged as int / 4
            <= old(process)@.words.len() && old(process)@.words[term.tagged as int / 4 - 1].tagged
            % 64 != 0b1011_00 && old(process)@.words[term.tagged as int / 4 - 1].tagged % 64
            != 0b10_10_11,
    ensures
        call_requires(Term::is_tuple, (&term, process)),
{
}

} // verus!
