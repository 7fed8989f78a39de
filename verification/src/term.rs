//! Terms: one word each, with a tag in the low bits.

use vstd::prelude::*;
use vstd::string::StringExecFns;

use crate::arena::{address_at, has_room, TypedArena};
use crate::atom::Index;
use crate::binary::{append_padded, padded_digits};
use crate::encoding::{
    arity_term, atom_term, boxed_term, empty_list_term, integer_term, lemma_extremes,
    lemma_integer_word, lemma_negated_word, lemma_shift_right, lemma_signed_word, list_term,
};
use crate::list::{
    behind, cell, ending, ends_after, has_end, is_cell, law_length_is_bounded, lemma_list_length,
    list_length, Cons,
};
use crate::process::{IntoProcess, Process, ProcessView};
use crate::tag::{law_untagged_words, Tag};

verus! {

/// A word whose low bits are a [`Tag`] that tells what the other bits hold.
#[derive(Clone, Copy, Debug)]
pub struct Term {
    pub tagged: usize,
}

/// A function was given a term that it is not defined for.
#[derive(Clone, Copy, Debug, PartialEq, Eq, Structural)]
pub struct BadArgument;

impl BadArgument {
    /// The error in words.
    pub fn message(&self) -> (text: String)
        ensures
            text@ == "bad argument"@,
    {
        "bad argument".to_owned()
    }
}

pub const SMALL_INTEGER_TAG_BIT_COUNT: u8 = 4;

/// The greatest integer that fits into a term beside its tag.
pub const MAX_SMALL_INTEGER: isize = (usize::MAX / 32) as isize;

/// The least integer that fits into a term beside its tag.
pub const MIN_SMALL_INTEGER: isize = -MAX_SMALL_INTEGER - 1;

/// The greatest number of an atom that fits into a term beside its tag.
pub const MAX_ATOM_INDEX: usize = usize::MAX / 64;

impl Term {
    pub const MAX_ARITY: usize = usize::MAX / 64;

    const SMALL_INTEGER_SIGN_BIT_MASK: usize = isize::MIN as usize;

    /// Whether the term carries `tag`.
    pub open spec fn has_tag(self, tag: Tag) -> bool {
        tag.marks(self.tagged)
    }

    /// Whether the term carries any tag.
    pub open spec fn well_tagged(self) -> bool {
        !Tag::unassigned(self.tagged)
    }

    /// The address in a list or a boxed term.
    pub open spec fn address(self) -> int {
        self.tagged - self.tagged % 4
    }

    /// The number above a six-bit tag: of an atom, its index; of a tuple's header, the arity.
    pub open spec fn payload(self) -> int {
        self.tagged as int / 64
    }

    /// The integer in a small integer: the word read as two's complement, above the tag bits.
    pub open spec fn integer(self) -> int {
        if self.tagged <= isize::MAX {
            self.tagged as int / 16
        } else {
            (self.tagged - (usize::MAX + 1)) / 16
        }
    }

    /// The term's tag.
    pub fn tag(&self) -> (found: Tag)
        requires
            self.well_tagged(),
        ensures
            self.has_tag(found),
            forall|tag: Tag| self.has_tag(tag) <==> tag == found,
    {
        match Tag::try_from(self.tagged) {
            Ok(tag) => tag,
            Err(_) => vstd::pervasive::unreached(),
        }
    }

    /// The empty list.
    pub fn empty_list() -> (term: Term)
        ensures
            term == empty_list_term(),
    {
        Term { tagged: Tag::EmptyList.bits() }
    }

    /// The header of a tuple of `arity` elements.
    pub fn arity(arity: usize) -> (term: Term)
        requires
            arity <= Term::MAX_ARITY,
        ensures
            term == arity_term(arity as int),
            term.has_tag(Tag::Arity),
            term.payload() == arity,
    {
        proof {
            lemma_extremes();
            lemma_shift_right(0, usize::MAX);
            assert((arity << 6u8) | 0 == 64 * arity) by (bit_vector)
                requires
                    arity <= !0usize >> 6u8,
            ;
        }
        Term { tagged: (arity << Tag::ARITY_BIT_COUNT) | Tag::Arity.bits() }
    }

    /// The term of the atom number `atom_index`.
    pub fn from(atom_index: Index) -> (term: Term)
        requires
            atom_index.0 <= MAX_ATOM_INDEX,
        ensures
            term == atom_term(atom_index.0 as int),
            term.has_tag(Tag::Atom),
            term.payload() == atom_index.0,
    {
        let index = atom_index.0;
        proof {
            lemma_extremes();
            lemma_shift_right(0, usize::MAX);
            assert((index << 6u8) | 0b1011 == 64 * index + 0b1011) by (bit_vector)
                requires
                    index <= !0usize >> 6u8,
            ;
        }
        Term { tagged: (index << Tag::ATOM_BIT_COUNT) | Tag::Atom.bits() }
    }

    /// Puts the terms of `slice` into neighbouring cells of `term_arena` and returns the address
    /// of the first.
    pub fn alloc_slice(slice: &[Term], term_arena: &mut TypedArena<Term>) -> (address: usize)
        requires
            has_room(old(term_arena)@.len(), slice@.len()),
        ensures
            address == address_at(old(term_arena)@.len() as int),
            final(term_arena)@ == old(term_arena)@ + slice@,
    {
        term_arena.alloc_slice(slice)
    }

    /// The term's word in base two, in full.
    pub fn in_binary(&self) -> (text: String)
        ensures
            text@ == "Term { tagged: 0b"@ + padded_digits(self.tagged as nat, usize::BITS as nat)
                + " }"@,
    {
        let mut text = "Term { tagged: 0b".to_owned();
        append_padded(&mut text, self.tagged, usize::BITS as usize);
        text.append(" }");
        text
    }

    /// A list of `head` and, behind it, `tail`.
    pub fn cons(head: Term, tail: Term, process: &mut Process) -> (term: Term)
        requires
            has_room(old(process)@.conses.len(), 1),
        ensures
            term == list_term(address_at(old(process)@.conses.len() as int)),
            final(process)@ == old(process)@.with_cell(head, tail),
            is_cell(final(process)@.conses, term),
            cell(final(process)@.conses, term) == (Cons { head, tail }),
    {
        let pointer_bits = process.cons(head, tail);
        assert(pointer_bits | 0b01 == pointer_bits + 0b01) by (bit_vector)
            requires
                pointer_bits % 4 == 0,
        ;
        Term { tagged: pointer_bits | Tag::List.bits() }
    }

    /// The address of the first cell of a list.
    pub fn cons_address(&self) -> (address: usize)
        ensures
            self.has_tag(Tag::List) ==> address == self.address(),
            address == self.tagged - self.tagged % 2,
    {
        let tagged = self.tagged;
        assert(tagged & !0b01 == tagged - tagged % 2) by (bit_vector);
        self.tagged & !Tag::List.bits()
    }

    /// The absolute value of an integer. The least small integer is left as it is.
    pub open spec fn absolute(self) -> Result<Term, BadArgument> {
        if !self.has_tag(Tag::SmallInteger) {
            Err(BadArgument)
        } else if self.integer() >= 0 || self.integer() == MIN_SMALL_INTEGER {
            Ok(self)
        } else {
            Ok(integer_term(-self.integer()))
        }
    }

    /// The absolute value of an integer. The least small integer has none among the small integers
    /// and is left as it is.
    pub fn abs(&self) -> (result: Result<Term, BadArgument>)
        requires
            self.well_tagged(),
        ensures
            result == self.absolute(),
    {
        match self.tag() {
            Tag::SmallInteger => {
                if self.small_integer_is_negative() {
                    proof {
                        lemma_signed_word(self.tagged);
                    }
                    // The cast comes first so that the shift extends the sign.
                    let signed = (self.tagged as isize) >> SMALL_INTEGER_TAG_BIT_COUNT;
                    let positive = -signed;
                    proof {
                        lemma_negated_word(self.tagged, positive);
                    }
                    Ok(
                        Term {
                            tagged: ((positive << SMALL_INTEGER_TAG_BIT_COUNT) as usize)
                                | Tag::SmallInteger.bits(),
                        },
                    )
                } else {
                    Ok(Term { tagged: self.tagged })
                }
            },
            _ => Err(BadArgument),
        }
    }

    /// The first element of a list that is not empty.
    pub fn head(&self, process: &Process) -> (result: Result<Term, BadArgument>)
        requires
            self.well_tagged(),
            self.has_tag(Tag::List) ==> is_cell(process@.conses, *self),
        ensures
            result == if self.has_tag(Tag::List) {
                Ok(cell(process@.conses, *self).head)
            } else {
                Err(BadArgument)
            },
    {
        match self.tag() {
            Tag::List => {
                let cons = Cons::from(*self, process);
                Ok(cons.head())
            },
            _ => Err(BadArgument),
        }
    }

    /// What follows the first element of a list that is not empty.
    pub fn tail(&self, process: &Process) -> (result: Result<Term, BadArgument>)
        requires
            self.well_tagged(),
            self.has_tag(Tag::List) ==> is_cell(process@.conses, *self),
        ensures
            result == if self.has_tag(Tag::List) {
                Ok(cell(process@.conses, *self).tail)
            } else {
                Err(BadArgument)
            },
    {
        match self.tag() {
            Tag::List => {
                let cons = Cons::from(*self, process);
                Ok(cons.tail())
            },
            _ => Err(BadArgument),
        }
    }

    /// The atom `true` where the term is an atom, and else `false`.
    pub fn is_atom(&self, process: &mut Process) -> (truth: Term)
        requires
            self.well_tagged(),
            self.has_tag(Tag::Atom).fits(old(process)@),
        ensures
            self.has_tag(Tag::Atom).becomes(old(process)@, final(process)@, truth),
    {
        (self.tag() == Tag::Atom).into_process(process)
    }

    /// The atom `true` where the term is the empty list, and else `false`.
    pub fn is_empty_list(&self, process: &mut Process) -> (truth: Term)
        requires
            self.well_tagged(),
            self.has_tag(Tag::EmptyList).fits(old(process)@),
        ensures
            self.has_tag(Tag::EmptyList).becomes(old(process)@, final(process)@, truth),
    {
        (self.tag() == Tag::EmptyList).into_process(process)
    }

    /// The atom `true` where the term is an integer, and else `false`.
    pub fn is_integer(&self, process: &mut Process) -> (truth: Term)
        requires
            self.well_tagged(),
            self.has_tag(Tag::SmallInteger).fits(old(process)@),
        ensures
            self.has_tag(Tag::SmallInteger).becomes(old(process)@, final(process)@, truth),
    {
        let truth = match self.tag() {
            Tag::SmallInteger => true,
            _ => false,
        };
        truth.into_process(process)
    }

    /// Whether the term is a list, empty or not.
    pub open spec fn is_any_list(self) -> bool {
        self.has_tag(Tag::EmptyList) || self.has_tag(Tag::List)
    }

    /// The atom `true` where the term is a list, empty or not, and else `false`.
    pub fn is_list(&self, process: &mut Process) -> (truth: Term)
        requires
            self.well_tagged(),
            self.is_any_list().fits(old(process)@),
        ensures
            self.is_any_list().becomes(old(process)@, final(process)@, truth),
    {
        let truth = match self.tag() {
            Tag::EmptyList | Tag::List => true,
            _ => false,
        };
        truth.into_process(process)
    }

    /// Whether the term is boxed and stands for the header of a tuple.
    pub open spec fn is_any_tuple(self, process: ProcessView) -> bool {
        self.has_tag(Tag::Boxed) && process.boxed(self).has_tag(Tag::Arity)
    }

    /// The atom `true` where the term is a tuple, and else `false`.
    pub fn is_tuple(&self, process: &mut Process) -> (truth: Term)
        requires
            self.well_tagged(),
            self.has_tag(Tag::Boxed) ==> old(process)@.is_box(*self) && old(process)@.boxed(
                *self,
            ).well_tagged(),
            self.is_any_tuple(old(process)@).fits(old(process)@),
        ensures
            self.is_any_tuple(old(process)@).becomes(old(process)@, final(process)@, truth),
    {
        let truth = self.tag() == Tag::Boxed && self.unbox(process).tag() == Tag::Arity;
        truth.into_process(process)
    }

    /// The number of elements of a proper list.
    pub fn length(&self, process: &mut Process) -> (result: Result<Term, BadArgument>)
        requires
            has_end(old(process)@.conses, *self),
            ending(old(process)@.conses, *self).well_tagged(),
            ending(old(process)@.conses, *self).has_tag(Tag::EmptyList) ==> list_length(
                old(process)@.conses,
                *self,
            ) <= MAX_SMALL_INTEGER,
        ensures
            final(process)@ == old(process)@,
            result == if ending(old(process)@.conses, *self).has_tag(Tag::EmptyList) {
                Ok(integer_term(list_length(old(process)@.conses, *self) as int))
            } else {
                Err(BadArgument)
            },
    {
        let mut length: usize = 0;
        let mut tail = *self;
        let ghost conses = process@.conses;
        let ghost mut rest = list_length(conses, *self);
        proof {
            process.lemma_cells_are_countable();
            law_length_is_bounded(conses, *self);
            lemma_list_length(conses, *self);
        }
        loop
            invariant
                process@ == old(process)@,
                conses == process@.conses,
                length + rest == list_length(conses, *self),
                list_length(conses, *self) <= usize::MAX,
                ends_after(conses, tail, rest),
                behind(conses, tail, rest) == ending(conses, *self),
                ending(conses, *self).well_tagged(),
                ending(conses, *self).has_tag(Tag::EmptyList) ==> list_length(conses, *self)
                    <= MAX_SMALL_INTEGER,
            decreases rest,
        {
            proof {
                law_untagged_words(tail.tagged);
            }
            match tail.tag() {
                Tag::EmptyList => {
                    return Ok(length.into_process(process));
                },
                Tag::List => {
                    proof {
                        rest = (rest - 1) as nat;
                    }
                    tail = tail.tail(process).unwrap();
                    length = length + 1;
                },
                _ => {
                    return Err(BadArgument);
                },
            }
        }
    }

    /// A tuple with the elements `slice`.
    pub fn slice_to_tuple(slice: &[Term], process: &mut Process) -> (term: Term)
        requires
            slice@.len() <= Term::MAX_ARITY,
            has_room(old(process)@.words.len(), slice@.len() + 1),
        ensures
            term == boxed_term(address_at(old(process)@.words.len() as int)),
            final(process)@ == old(process)@.with_tuple(slice@),
            final(process)@.is_tuple_of(term, slice@),
    {
        let pointer_bits = process.slice_to_tuple(slice);
        proof {
            let start = old(process)@.words.len() as int;
            assert(process@.words.subrange(start + 1, start + 1 + slice@.len()) == slice@);
        }
        assert(pointer_bits | 0b10 == pointer_bits + 0b10) by (bit_vector)
            requires
                pointer_bits % 4 == 0,
        ;
        Term { tagged: pointer_bits | Tag::Boxed.bits() }
    }

    /// The word that a boxed term stands for.
    pub fn unbox<'a>(&self, process: &'a Process) -> (term: &'a Term)
        requires
            process@.is_box(*self),
        ensures
            *term == process@.boxed(*self),
    {
        process.word(self.boxed_address())
    }

    /// The address in a boxed term.
    pub fn boxed_address(&self) -> (address: usize)
        requires
            self.has_tag(Tag::Boxed),
        ensures
            address == self.address(),
    {
        let tagged = self.tagged;
        assert(tagged & !0b10 == tagged - 0b10) by (bit_vector)
            requires
                tagged % 4 == 0b10,
        ;
        self.tagged & !Tag::Boxed.bits()
    }

    /// The integer in a small integer.
    pub fn to_isize(&self) -> (value: isize)
        requires
            self.has_tag(Tag::SmallInteger),
        ensures
            value == self.integer(),
            MIN_SMALL_INTEGER <= value <= MAX_SMALL_INTEGER,
    {
        proof {
            lemma_signed_word(self.tagged);
        }
        (self.tagged as isize) >> SMALL_INTEGER_TAG_BIT_COUNT
    }

    /// The arity in the header of a tuple.
    pub fn to_usize(self) -> (arity: usize)
        requires
            self.has_tag(Tag::Arity),
        ensures
            arity == self.payload(),
            arity <= Term::MAX_ARITY,
    {
        proof {
            lemma_shift_right(0, self.tagged);
        }
        self.tagged >> Tag::ARITY_BIT_COUNT
    }

    /// Whether the integer in a small integer is negative.
    fn small_integer_is_negative(&self) -> (negative: bool)
        ensures
            negative == (self.integer() < 0),
    {
        proof {
            let (tagged, sign) = (self.tagged, isize::MIN as usize);
            lemma_extremes();
            assert((tagged & sign == sign) == (tagged >= sign)) by (bit_vector)
                requires
                    sign == !(!0usize >> 1u8),
            ;
        }
        self.tagged & Term::SMALL_INTEGER_SIGN_BIT_MASK == Term::SMALL_INTEGER_SIGN_BIT_MASK
    }
}

impl IntoProcess<Term> for isize {
    open spec fn fits(self, process: ProcessView) -> bool {
        MIN_SMALL_INTEGER <= self <= MAX_SMALL_INTEGER
    }

    open spec fn becomes(self, before: ProcessView, after: ProcessView, term: Term) -> bool {
        after == before && term == integer_term(self as int)
    }

    /// The small integer of this value.
    fn into_process(self, process: &mut Process) -> (term: Term) {
        proof {
            lemma_integer_word(self);
        }
        Term { tagged: ((self as usize) << SMALL_INTEGER_TAG_BIT_COUNT) | Tag::SmallInteger.bits() }
    }
}

impl IntoProcess<Term> for usize {
    open spec fn fits(self, process: ProcessView) -> bool {
        self <= MAX_SMALL_INTEGER
    }

    open spec fn becomes(self, before: ProcessView, after: ProcessView, term: Term) -> bool {
        after == before && term == integer_term(self as int)
    }

    /// The small integer of this value.
    fn into_process(self, process: &mut Process) -> (term: Term) {
        proof {
            lemma_integer_word(self as isize);
            assert(self as isize as usize == self);
        }
        Term { tagged: (self << SMALL_INTEGER_TAG_BIT_COUNT) | Tag::SmallInteger.bits() }
    }
}

} // verus!
