//! How values are laid out in the word of a term.

use vstd::prelude::*;

use crate::tag::Tag;
use crate::term::{
    Term, MAX_ATOM_INDEX, MAX_SMALL_INTEGER, MIN_SMALL_INTEGER, SMALL_INTEGER_TAG_BIT_COUNT,
};

verus! {

/// The empty list.
pub open spec fn empty_list_term() -> Term {
    Term { tagged: 0b11_10_11 }
}

/// The term of the integer `value`: two's complement above the four tag bits.
pub open spec fn integer_term(value: int) -> Term {
    if value >= 0 {
        Term { tagged: (16 * value + 0b11_11) as usize }
    } else {
        Term { tagged: (usize::MAX + 1 + 16 * value + 0b11_11) as usize }
    }
}

/// The term of the atom number `index`.
pub open spec fn atom_term(index: int) -> Term {
    Term { tagged: (64 * index + 0b00_10_11) as usize }
}

/// The header of a tuple of `arity` elements.
pub open spec fn arity_term(arity: int) -> Term {
    Term { tagged: (64 * arity) as usize }
}

/// The list whose first cell is at `address`.
pub open spec fn list_term(address: int) -> Term {
    Term { tagged: (address + 0b01) as usize }
}

/// The boxed term that is at `address`.
pub open spec fn boxed_term(address: int) -> Term {
    Term { tagged: (address + 0b10) as usize }
}

/// A shift to the right by four or six bits divides by sixteen or sixty-four and rounds down.
pub(crate) proof fn lemma_shift_right(signed: isize, word: usize)
    ensures
        signed >> 4u8 == signed as int / 16,
        word >> 6u8 == word as int / 64,
{
    assert(signed >> 4u8 == signed / 16) by (bit_vector);
    assert(word >> 6u8 == word / 64) by (bit_vector);
}

/// The word of a small integer, read as a signed number and shifted, is its integer.
pub(crate) proof fn lemma_signed_word(tagged: usize)
    ensures
        (tagged as isize) >> 4u8 == (Term { tagged }).integer(),
{
    lemma_extremes();
    lemma_shift_right(tagged as isize, 0);
    assert(tagged as isize == if tagged <= !0usize >> 1u8 {
        tagged as int
    } else {
        tagged - !0usize - 1
    }) by (bit_vector);
    assert(!0usize >> 1u8 == !0usize / 2) by (bit_vector);
}

/// The extreme words as bit patterns.
pub(crate) proof fn lemma_extremes()
    ensures
        usize::MAX == !0usize,
        isize::MIN as usize == !(!0usize >> 1u8),
        isize::MIN as usize == isize::MAX + 1,
{
    let word = usize::MAX;
    assert(word <= !0usize) by (bit_vector);
    let least = isize::MIN;
    assert(!(!0usize >> 1u8) as isize <= least) by (bit_vector);
    let sign = !(!0usize >> 1u8);
    assert(sign as isize as usize == sign && sign + (sign as isize) == 0) by (bit_vector)
        requires
            sign == !(!0usize >> 1u8),
    ;
}

/// The limits are the extreme words without the bits that a tag takes.
pub proof fn law_limits()
    ensures
        MAX_SMALL_INTEGER == isize::MAX >> SMALL_INTEGER_TAG_BIT_COUNT,
        MIN_SMALL_INTEGER == isize::MIN >> SMALL_INTEGER_TAG_BIT_COUNT,
        MAX_ATOM_INDEX == (usize::MAX << Tag::ATOM_BIT_COUNT) >> Tag::ATOM_BIT_COUNT,
        Term::MAX_ARITY == usize::MAX >> Tag::ARITY_BIT_COUNT,
{
    lemma_extremes();
    lemma_shift_right(isize::MAX, usize::MAX);
    lemma_shift_right(isize::MIN, usize::MAX);
    assert((!0usize << 6u8) >> 6u8 == !0usize >> 6u8) by (bit_vector);
}

/// The word that is made of an integer is the integer's term.
pub(crate) proof fn lemma_integer_word(value: isize)
    requires
        MIN_SMALL_INTEGER <= value <= MAX_SMALL_INTEGER,
    ensures
        ((value as usize) << 4u8) | 0b11_11 == integer_term(value as int).tagged,
        integer_term(value as int).has_tag(Tag::SmallInteger),
        integer_term(value as int).integer() == value,
{
    lemma_extremes();
    assert(!0usize >> 5u8 == !0usize / 32) by (bit_vector);
    if value >= 0 {
        assert(((value as usize) << 4u8) | 0b11_11 == 16 * value + 0b11_11) by (bit_vector)
            requires
                0 <= value,
                value <= !0usize >> 5u8,
        ;
    } else {
        assert(((value as usize) << 4u8) | 0b11_11 == !0usize + 1 + 16 * value + 0b11_11)
            by (bit_vector)
            requires
                value < 0,
                -value <= (!0usize >> 5u8) + 1,
        ;
    }
}

/// The word that is made of the opposite of a negative integer.
pub(crate) proof fn lemma_negated_word(tagged: usize, positive: isize)
    requires
        (Term { tagged }).has_tag(Tag::SmallInteger),
        positive == -(Term { tagged }).integer(),
        positive > 0,
    ensures
        ((positive << 4u8) as usize) | 0b11_11 == if -positive == MIN_SMALL_INTEGER {
            tagged
        } else {
            integer_term(positive as int).tagged
        },
{
    if -positive == MIN_SMALL_INTEGER {
        lemma_extremes();
        assert(!0usize >> 5u8 == !0usize / 32) by (bit_vector);
        assert(!(!0usize >> 1u8) == 16 * ((!0usize >> 5u8) + 1)) by (bit_vector);
        assert(((positive << 4u8) as usize) | 0b11_11 == !(!0usize >> 1u8) + 0b11_11)
            by (bit_vector)
            requires
                positive == (!0usize >> 5u8) + 1,
        ;
    } else {
        lemma_integer_word(positive);
        assert((positive << 4u8) as usize == (positive as usize) << 4u8) by (bit_vector);
    }
}

/// An integer that fits is read back from its term.
pub proof fn law_integer_round_trip(value: int)
    requires
        MIN_SMALL_INTEGER <= value <= MAX_SMALL_INTEGER,
    ensures
        integer_term(value).has_tag(Tag::SmallInteger),
        integer_term(value).integer() == value,
{
}

/// A small integer is the term of the integer that is read from it, and that integer fits.
pub proof fn law_integer_of_term(term: Term)
    requires
        term.has_tag(Tag::SmallInteger),
    ensures
        MIN_SMALL_INTEGER <= term.integer() <= MAX_SMALL_INTEGER,
        integer_term(term.integer()) == term,
{
}

/// The number of an atom that fits is read back from its term.
pub proof fn law_atom_round_trip(index: int)
    requires
        0 <= index <= MAX_ATOM_INDEX,
    ensures
        atom_term(index).has_tag(Tag::Atom),
        atom_term(index).payload() == index,
{
}

/// An atom is the term of the number that is read from it, and that number fits.
pub proof fn law_atom_of_term(term: Term)
    requires
        term.has_tag(Tag::Atom),
    ensures
        0 <= term.payload() <= MAX_ATOM_INDEX,
        atom_term(term.payload()) == term,
{
}

/// An arity that fits is read back from its header.
pub proof fn law_arity_round_trip(arity: int)
    requires
        0 <= arity <= Term::MAX_ARITY,
    ensures
        arity_term(arity).has_tag(Tag::Arity),
        arity_term(arity).payload() == arity,
{
}

/// The header of a tuple is that of the arity that is read from it, and that arity fits.
pub proof fn law_arity_of_term(term: Term)
    requires
        term.has_tag(Tag::Arity),
    ensures
        0 <= term.payload() <= Term::MAX_ARITY,
        arity_term(term.payload()) == term,
{
}

/// The tag of a list or a boxed term overwrites nothing of an address with two clear low bits.
pub proof fn law_address_round_trip(address: usize)
    requires
        address % 4 == 0,
    ensures
        list_term(address as int).has_tag(Tag::List),
        list_term(address as int).address() == address,
        boxed_term(address as int).has_tag(Tag::Boxed),
        boxed_term(address as int).address() == address,
{
}

} // verus!
