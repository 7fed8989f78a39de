//! Promises on lists.

use vstd::prelude::*;

use crate::laws::law_elements_of_cons;
use crate::list::{
    ending, has_end, law_elements_of_list, law_elements_of_other_terms, law_length_is_bounded, Cons,
};
use crate::process::Process;
use crate::term::{BadArgument, Term};

verus! {

/// Making a list adds one cell to the process, with the given head and tail, and nothing else. The
/// list refers to that cell and to no other.
pub proof fn law_cons_adds_one_cell(head: Term, tail: Term, process: &mut Process, list: Term)
    requires
        4 * (old(process)@.conses.len() + 2) <= usize::MAX,
        call_ensures(Term::cons, (head, tail, process), list),
    ensures
        list.tagged % 4 == 0b01,
        list.tagged as int / 4 - 1 == old(process)@.conses.len(),
        final(process)@.conses.len() == old(process)@.conses.len() + 1,
        old(process)@.conses.is_prefix_of(final(process)@.conses),
        final(process)@.conses.last().head == head,
        final(process)@.conses.last().tail == tail,
        final(process)@.atoms == old(process)@.atoms,
        final(process)@.words == old(process)@.words,
{
}

/// The head and the tail of a list are those that it was made of, also when cells were added since.
pub proof fn law_head_and_tail_give_back(
    head: Term,
    tail: Term,
    process: &mut Process,
    list: Term,
    later: &Process,
    its_head: Result<Term, BadArgument>,
    its_tail: Result<Term, BadArgument>,
)
    requires
        4 * (old(process)@.conses.len() + 2) <= usize::MAX,
        call_ensures(Term::cons, (head, tail, process), list),
        final(process)@.conses.is_prefix_of(later@.conses),
        call_ensures(Term::head, (&list, later), its_head),
        call_ensures(Term::tail, (&list, later), its_tail),
    ensures
        its_head == Ok::<Term, BadArgument>(head),
        its_tail == Ok::<Term, BadArgument>(tail),
{
    let index = old(process)@.conses.len() as int;
    assert(later@.conses[index] == final(process)@.conses[index]);
}

/// Lists that are not empty have a head and a tail, and no other term has.
pub proof fn law_only_lists_have_head_and_tail(
    term: Term,
    process: &Process,
    head: Result<Term, BadArgument>,
    tail: Result<Term, BadArgument>,
)
    requires
        call_ensures(Term::head, (&term, process), head),
        call_ensures(Term::tail, (&term, process), tail),
    ensures
        term.tagged % 4 == 0b01 <==> head is Ok,
        term.tagged % 4 == 0b01 <==> tail is Ok,
        term.tagged % 4 != 0b01 ==> head == Err::<Term, BadArgument>(BadArgument),
        term.tagged % 4 != 0b01 ==> tail == Err::<Term, BadArgument>(BadArgument),
{
}

/// The head and the tail of a list are those in the cell that it refers to.
pub proof fn law_head_and_tail_are_in_the_cell(
    list: Term,
    process: &Process,
    head: Result<Term, BadArgument>,
    tail: Result<Term, BadArgument>,
    cell: &Cons,
)
    requires
        list.tagged % 4 == 0b01,
        4 < list.tagged,
        list.tagged as int / 4 <= process@.conses.len(),
        call_ensures(Term::head, (&list, process), head),
        call_ensures(Term::tail, (&list, process), tail),
        call_ensures(Cons::from, (list, process), cell),
    ensures
        head == Ok::<Term, BadArgument>(process@.conses[list.tagged as int / 4 - 1].head),
        tail == Ok::<Term, BadArgument>(process@.conses[list.tagged as int / 4 - 1].tail),
        *cell == process@.conses[list.tagged as int / 4 - 1],
{
}

/// The cell of a word is at the address that the word is without its lowest bit.
pub proof fn law_cells_are_found_without_the_lowest_bit(
    term: Term,
    process: &Process,
    cell: &Cons,
)
    requires
        term.tagged % 4 == 0b00 || term.tagged % 4 == 0b01,
        4 <= term.tagged,
        term.tagged as int / 4 <= process@.conses.len(),
        call_ensures(Cons::from, (term, process), cell),
    ensures
        *cell == process@.conses[term.tagged as int / 4 - 1],
        call_requires(Cons::from, (term, process)),
{
}

/// A cell holds the head and the tail that it was made of.
pub proof fn law_cells_hold_head_and_tail(
    head: Term,
    tail: Term,
    cell: Cons,
    its_head: Term,
    its_tail: Term,
)
    requires
        call_ensures(Cons::new, (head, tail), cell),
        call_ensures(Cons::head, (&cell,), its_head),
        call_ensures(Cons::tail, (&cell,), its_tail),
    ensures
        its_head == head,
        its_tail == tail,
        cell.head == head,
        cell.tail == tail,
{
}

/// The head and the tail of a cell are what it holds.
pub proof fn law_head_and_tail_are_what_a_cell_holds(cell: Cons, head: Term, tail: Term)
    requires
        call_ensures(Cons::head, (&cell,), head),
        call_ensures(Cons::tail, (&cell,), tail),
    ensures
        head == cell.head,
        tail == cell.tail,
{
}

/// A process puts a cell behind those that it has, changes nothing else, and finds every cell at
/// its address.
pub proof fn law_processes_keep_cells(
    head: Term,
    tail: Term,
    process: &mut Process,
    address: usize,
    shared: &Process,
    at: usize,
    found: &Cons,
)
    requires
        call_ensures(Process::cons, (process, head, tail), address),
        at % 4 == 0,
        4 <= at,
        at as int / 4 <= shared@.conses.len(),
        call_ensures(Process::cell, (shared, at), found),
    ensures
        address == 4 * (old(process)@.conses.len() + 1),
        final(process)@.conses.len() == old(process)@.conses.len() + 1,
        old(process)@.conses.is_prefix_of(final(process)@.conses),
        final(process)@.conses.last().head == head,
        final(process)@.conses.last().tail == tail,
        final(process)@.atoms == old(process)@.atoms,
        final(process)@.words == old(process)@.words,
        *found == shared@.conses[at as int / 4 - 1],
        call_requires(Process::cell, (shared, at)),
{
}

/// Two lists that were made one after the other are at different addresses.
pub proof fn law_lists_are_at_different_addresses(
    head: Term,
    tail: Term,
    before: &mut Process,
    first: Term,
    other_head: Term,
    other_tail: Term,
    after: &mut Process,
    second: Term,
)
    requires
        4 * (old(after)@.conses.len() + 2) <= usize::MAX,
        call_ensures(Term::cons, (head, tail, before), first),
        final(before)@.conses.is_prefix_of(old(after)@.conses),
        call_ensures(Term::cons, (other_head, other_tail, after), second),
    ensures
        first.tagged != second.tagged,
{
}

/// Any two terms can be made into a list while there is an address left, and every tagged term can
/// be asked for its head and its tail that refers to a cell of the process where it is a list.
pub proof fn law_lists_can_be_made_and_taken_apart(
    head: Term,
    tail: Term,
    process: &mut Process,
    term: Term,
    shared: &Process,
)
    ensures
        4 * (old(process)@.conses.len() + 2) <= usize::MAX ==> call_requires(
            Term::cons,
            (head, tail, process),
        ),
        term.tagged % 64 != 0b1011_00 && term.tagged % 64 != 0b10_10_11 && (term.tagged % 4 == 0b01
            ==> 4 < term.tagged && term.tagged as int / 4 <= shared@.conses.len())
            ==> call_requires(Term::head, (&term, shared)) && call_requires(
            Term::tail,
            (&term, shared),
        ),
{
}

/// The length of the empty list is the integer zero, and a term that is no list has none. The
/// process stays as it is.
pub proof fn law_length_of_other_terms(
    term: Term,
    process: &mut Process,
    result: Result<Term, BadArgument>,
)
    requires
        term.tagged % 4 != 0b01,
        call_ensures(Term::length, (&term, process), result),
    ensures
        term.tagged % 64 == 0b11_10_11 ==> (result matches Ok(length) && length.tagged == 15),
        term.tagged % 64 != 0b11_10_11 ==> result == Err::<Term, BadArgument>(BadArgument),
        final(process)@ == old(process)@,
{
    law_elements_of_other_terms(old(process)@.conses, term);
}

/// A list has a length exactly where its tail has one, and is longer by one.
pub proof fn law_lists_are_longer_by_one_than_their_tails(
    list: Term,
    process: &mut Process,
    of_list: Result<Term, BadArgument>,
    of_tail: Result<Term, BadArgument>,
)
    requires
        list.tagged % 4 == 0b01,
        4 < list.tagged,
        list.tagged as int / 4 <= old(process)@.conses.len(),
        16 * old(process)@.conses.len() <= isize::MAX - 15,
        has_end(old(process)@.conses, list),
        call_ensures(Term::length, (&list, process), of_list),
        call_ensures(
            Term::length,
            (&old(process)@.conses[list.tagged as int / 4 - 1].tail, process),
            of_tail,
        ),
    ensures
        of_tail is Ok <==> of_list is Ok,
        of_tail is Err ==> of_list == Err::<Term, BadArgument>(BadArgument),
        of_list matches Ok(longer) ==> of_tail matches Ok(shorter) && longer.tagged
            == shorter.tagged + 16,
        final(process)@ == old(process)@,
{
    law_elements_of_list(old(process)@.conses, list);
    law_length_is_bounded(old(process)@.conses, list);
}

/// A list can be asked for its length where its tail has an end and that end carries a tag, as long
/// as the number of cells fits into an integer.
pub proof fn law_lists_can_be_counted_where_their_tails_can(list: Term, process: &mut Process)
    requires
        list.tagged % 4 == 0b01,
        4 < list.tagged,
        list.tagged as int / 4 <= old(process)@.conses.len(),
        16 * old(process)@.conses.len() <= isize::MAX - 15,
        has_end(old(process)@.conses, old(process)@.conses[list.tagged as int / 4 - 1].tail),
        ending(
            old(process)@.conses,
            old(process)@.conses[list.tagged as int / 4 - 1].tail,
        ).well_tagged(),
    ensures
        has_end(old(process)@.conses, list),
        ending(old(process)@.conses, list).well_tagged(),
        call_requires(Term::length, (&list, process)),
{
    law_elements_of_list(old(process)@.conses, list);
    law_length_is_bounded(old(process)@.conses, list);
}

/// A list that was made has a length exactly where its tail has one, and is longer by one.
pub proof fn law_cons_adds_one_to_the_length(
    head: Term,
    tail: Term,
    process: &mut Process,
    list: Term,
    before: &mut Process,
    of_tail: Result<Term, BadArgument>,
    after: &mut Process,
    of_list: Result<Term, BadArgument>,
)
    requires
        4 * (old(process)@.conses.len() + 2) <= usize::MAX,
        16 * (old(process)@.conses.len() + 1) <= isize::MAX - 15,
        has_end(old(process)@.conses, tail),
        call_ensures(Term::cons, (head, tail, process), list),
        old(before)@.conses == old(process)@.conses,
        call_ensures(Term::length, (&tail, before), of_tail),
        old(after)@.conses == final(process)@.conses,
        call_ensures(Term::length, (&list, after), of_list),
    ensures
        of_tail is Ok <==> of_list is Ok,
        of_tail is Err ==> of_list == Err::<Term, BadArgument>(BadArgument),
        of_list matches Ok(longer) ==> of_tail matches Ok(shorter) && longer.tagged
            == shorter.tagged + 16,
        final(after)@ == old(after)@,
{
    law_elements_of_cons(old(process)@, head, tail);
    law_length_is_bounded(old(process)@.conses, tail);
}

/// A list can be asked for its length where its tail can, as long as the length fits.
pub proof fn law_lists_can_be_counted(
    head: Term,
    tail: Term,
    process: &mut Process,
    list: Term,
    after: &mut Process,
)
    requires
        4 * (old(process)@.conses.len() + 2) <= usize::MAX,
        16 * (old(process)@.conses.len() + 1) <= isize::MAX - 15,
        has_end(old(process)@.conses, tail),
        ending(old(process)@.conses, tail).well_tagged(),
        call_ensures(Term::cons, (head, tail, process), list),
        old(after)@.conses == final(process)@.conses,
    ensures
        has_end(old(after)@.conses, list),
        ending(old(after)@.conses, list).well_tagged(),
        call_requires(Term::length, (&list, after)),
{
    law_elements_of_cons(old(process)@, head, tail);
    law_length_is_bounded(old(process)@.conses, tail);
}

/// Every tagged term that is no list can be asked for its length.
pub proof fn law_other_terms_can_be_counted(term: Term, process: &mut Process)
    requires
        term.tagged % 4 != 0b01,
        term.tagged % 64 != 0b1011_00,
        term.tagged % 64 != 0b10_10_11,
    ensures
        has_end(old(process)@.conses, term),
        ending(old(process)@.conses, term) == term,
        call_requires(Term::length, (&term, process)),
{
    law_elements_of_other_terms(old(process)@.conses, term);
}

} // verus!
