//! Promises on the words that values are laid out in.

use vstd::prelude::*;

use crate::atom::Index;
use crate::encoding::{law_integer_of_term, law_integer_round_trip};
use crate::process::{IntoProcess, Process};
use crate::tag::Tag;
use crate::term::{
    BadArgument, Term, MAX_ATOM_INDEX, MAX_SMALL_INTEGER, MIN_SMALL_INTEGER,
    SMALL_INTEGER_TAG_BIT_COUNT,
};

verus! {

/// The limits leave just the bits of a tag: sixteen times the extreme integers and sixty-four times
/// the greatest number and arity are the extreme words but for their low bits.
pub proof fn law_limits_leave_the_bits_of_a_tag()
    ensures
        16 * MAX_SMALL_INTEGER + 15 == isize::MAX,
        16 * MIN_SMALL_INTEGER == isize::MIN,
        64 * MAX_ATOM_INDEX + 63 == usize::MAX,
        64 * Term::MAX_ARITY + 63 == usize::MAX,
        SMALL_INTEGER_TAG_BIT_COUNT == 4,
        Tag::ATOM_BIT_COUNT == 6,
        Tag::ARITY_BIT_COUNT == 6,
        Tag::PRIMARY_MASK == 3,
{
}

/// A signed integer becomes the word that holds it, in two's complement, above four set bits, and
/// the process stays as it is.
pub proof fn law_signed_integers_become_their_words(value: isize, process: &mut Process, term: Term)
    requires
        isize::MIN <= 16 * value <= isize::MAX,
        call_ensures(<isize as IntoProcess<Term>>::into_process, (value, process), term),
    ensures
        value >= 0 ==> term.tagged == 16 * value + 15,
        value < 0 ==> term.tagged == 16 * value + 15 + usize::MAX + 1,
        final(process)@ == old(process)@,
{
    law_integer_round_trip(value as int);
}

/// A signed integer is read back from the term that it becomes.
pub proof fn law_signed_integers_are_read_back(
    value: isize,
    process: &mut Process,
    term: Term,
    read: isize,
)
    requires
        isize::MIN <= 16 * value <= isize::MAX,
        call_ensures(<isize as IntoProcess<Term>>::into_process, (value, process), term),
        call_ensures(Term::to_isize, (&term,), read),
    ensures
        read == value,
{
    law_integer_round_trip(value as int);
}

/// Every signed integer that is left as it is by a shift to the left by four bits and back can
/// become a term.
pub proof fn law_signed_integers_fit(value: isize, process: &mut Process)
    requires
        isize::MIN <= 16 * value <= isize::MAX,
    ensures
        call_requires(<isize as IntoProcess<Term>>::into_process, (value, process)),
{
}

/// An unsigned integer becomes the word that holds it above four set bits, and the process stays as
/// it is.
pub proof fn law_unsigned_integers_become_their_words(
    value: usize,
    process: &mut Process,
    term: Term,
)
    requires
        16 * value <= isize::MAX,
        call_ensures(<usize as IntoProcess<Term>>::into_process, (value, process), term),
    ensures
        term.tagged == 16 * value + 15,
        final(process)@ == old(process)@,
{
    law_integer_round_trip(value as int);
}

/// An unsigned integer is read back from the term that it becomes.
pub proof fn law_unsigned_integers_are_read_back(
    value: usize,
    process: &mut Process,
    term: Term,
    read: isize,
)
    requires
        16 * value <= isize::MAX,
        call_ensures(<usize as IntoProcess<Term>>::into_process, (value, process), term),
        call_ensures(Term::to_isize, (&term,), read),
    ensures
        read == value,
{
    law_integer_round_trip(value as int);
}

/// A signed and an unsigned integer of the same value become the same term.
pub proof fn law_signed_and_unsigned_integers_agree(
    signed: isize,
    unsigned: usize,
    process: &mut Process,
    of_signed: Term,
    of_unsigned: Term,
)
    requires
        signed == unsigned,
        16 * unsigned <= isize::MAX,
        call_ensures(<isize as IntoProcess<Term>>::into_process, (signed, process), of_signed),
        call_ensures(<usize as IntoProcess<Term>>::into_process, (unsigned, process), of_unsigned),
    ensures
        of_signed == of_unsigned,
{
    law_signed_integers_become_their_words(signed, process, of_signed);
    law_unsigned_integers_become_their_words(unsigned, process, of_unsigned);
}

/// Every unsigned integer that leaves the sign and four more bits clear can become a term.
pub proof fn law_unsigned_integers_fit(value: usize, process: &mut Process)
    requires
        16 * value <= isize::MAX,
    ensures
        call_requires(<usize as IntoProcess<Term>>::into_process, (value, process)),
{
}

/// The integer that is read from a word with four set low bits is the one whose word it is.
pub proof fn law_integers_are_read_from_their_words(term: Term, value: isize)
    requires
        term.tagged % 16 == 15,
        call_ensures(Term::to_isize, (&term,), value),
    ensures
        term.tagged <= isize::MAX ==> 16 * value + 15 == term.tagged,
        term.tagged > isize::MAX ==> 16 * value + 15 == term.tagged - usize::MAX - 1,
{
    law_integer_of_term(term);
}

/// Every word with four set low bits can be read as an integer.
pub proof fn law_integer_words_can_be_read(term: Term)
    requires
        term.tagged % 16 == 15,
    ensures
        call_requires(Term::to_isize, (&term,)),
{
}

/// Integers have an absolute value, and no other term has one.
pub proof fn law_only_integers_have_an_absolute_value(
    term: Term,
    result: Result<Term, BadArgument>,
)
    requires
        call_ensures(Term::abs, (&term,), result),
    ensures
        term.tagged % 16 == 15 <==> result is Ok,
        term.tagged % 16 != 15 <==> result == Err::<Term, BadArgument>(BadArgument),
{
}

/// The absolute value of an integer reads as its distance from zero. The least integer that a term
/// can hold is its own absolute value.
pub proof fn law_absolute_values_read_as_distances_from_zero(
    term: Term,
    value: isize,
    absolute: Term,
    distance: isize,
)
    requires
        term.tagged % 16 == 15,
        call_ensures(Term::to_isize, (&term,), value),
        call_ensures(Term::abs, (&term,), Ok::<Term, BadArgument>(absolute)),
        call_ensures(Term::to_isize, (&absolute,), distance),
    ensures
        absolute.tagged % 16 == 15,
        value >= 0 ==> distance == value && absolute == term,
        value < 0 && 16 * value > isize::MIN ==> distance == -value,
        16 * value == isize::MIN ==> absolute == term,
{
    law_integer_of_term(term);
    if MIN_SMALL_INTEGER < value < 0 {
        law_integer_round_trip(-value as int);
    }
}

/// An integer that is not negative is its own absolute value, and so is the least integer. The
/// words of any other integer and of its absolute value are those of two integers that add up to
/// zero.
pub proof fn law_absolute_values_are_opposite_words(term: Term, absolute: Term)
    requires
        term.tagged % 16 == 15,
        call_ensures(Term::abs, (&term,), Ok::<Term, BadArgument>(absolute)),
    ensures
        term.tagged <= isize::MAX ==> absolute == term,
        term.tagged == isize::MAX + 16 ==> absolute == term,
        term.tagged > isize::MAX + 16 ==> (absolute.tagged - 15) + (term.tagged - 15) == usize::MAX
            + 1,
{
    law_integer_of_term(term);
}

/// An absolute value is its own.
pub proof fn law_absolute_values_are_their_own(term: Term, once: Term, twice: Term)
    requires
        call_ensures(Term::abs, (&term,), Ok::<Term, BadArgument>(once)),
        call_ensures(Term::abs, (&once,), Ok::<Term, BadArgument>(twice)),
    ensures
        twice == once,
{
    law_only_integers_have_an_absolute_value(term, Ok(once));
    law_absolute_values_are_opposite_words(term, once);
    law_only_integers_have_an_absolute_value(once, Ok(twice));
    law_absolute_values_are_opposite_words(once, twice);
}

/// Every tagged term can be asked for its absolute value.
pub proof fn law_every_tagged_term_can_be_asked_for_its_absolute_value(term: Term)
    requires
        term.tagged % 64 != 0b1011_00,
        term.tagged % 64 != 0b10_10_11,
    ensures
        call_requires(Term::abs, (&term,)),
{
}

/// The header of a tuple is its arity above six clear bits, and the arity is read back from it.
pub proof fn law_headers_hold_their_arity(arity: usize, term: Term, read: usize)
    requires
        64 * arity <= usize::MAX,
        call_ensures(Term::arity, (arity,), term),
        call_ensures(Term::to_usize, (term,), read),
    ensures
        term.tagged == 64 * arity,
        read == arity,
{
}

/// The arity that is read from a word with six clear low bits is the rest of the word.
pub proof fn law_arities_are_read_from_their_words(term: Term, read: usize)
    requires
        term.tagged % 64 == 0,
        call_ensures(Term::to_usize, (term,), read),
    ensures
        term.tagged == 64 * read,
{
}

/// Every arity that leaves six bits clear fits into a header, and every header can be read.
pub proof fn law_arities_fit(arity: usize, term: Term)
    ensures
        64 * arity <= usize::MAX ==> call_requires(Term::arity, (arity,)),
        term.tagged % 64 == 0 ==> call_requires(Term::to_usize, (term,)),
{
}

/// An atom is its number above the six bits of its tag, and the number is read back from it.
pub proof fn law_atoms_hold_their_number(index: Index, term: Term, read: Index)
    requires
        64 * index.0 <= usize::MAX - 63,
        call_ensures(Term::from, (index,), term),
        call_ensures(Index::from, (&term,), read),
    ensures
        term.tagged == 64 * index.0 + 0b00_10_11,
        read == index,
{
}

/// The number that is read from an atom is the rest of its word.
pub proof fn law_numbers_are_read_from_their_words(term: Term, read: Index)
    requires
        term.tagged % 64 == 0b00_10_11,
        call_ensures(Index::from, (&term,), read),
    ensures
        term.tagged == 64 * read.0 + 0b00_10_11,
{
}

/// Every number that leaves six bits clear fits into an atom, and every atom can be read.
pub proof fn law_numbers_fit(index: Index, term: Term)
    ensures
        64 * index.0 <= usize::MAX - 63 ==> call_requires(Term::from, (index,)),
        term.tagged % 64 == 0b00_10_11 ==> call_requires(Index::from, (&term,)),
{
}

/// The empty list is one word.
pub proof fn law_empty_list_is_one_word(term: Term)
    requires
        call_ensures(Term::empty_list, (), term),
    ensures
        term.tagged == 0b11_10_11,
{
}

/// The address in a list is its word without the lowest bit, and that in a boxed term is its word
/// without the second lowest.
pub proof fn law_addresses_are_read_from_their_words(
    list: Term,
    in_list: usize,
    boxed: Term,
    in_box: usize,
)
    requires
        call_ensures(Term::cons_address, (&list,), in_list),
        boxed.tagged % 4 == 0b10,
        call_ensures(Term::boxed_address, (&boxed,), in_box),
    ensures
        list.tagged % 2 == 1 ==> in_list == list.tagged - 1,
        list.tagged % 2 == 0 ==> in_list == list.tagged,
        in_box == boxed.tagged - 2,
        call_requires(Term::cons_address, (&list,)),
        call_requires(Term::boxed_address, (&boxed,)),
{
}

} // verus!
