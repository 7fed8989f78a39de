//! Promises on the tags in the low bits of words.

use vstd::prelude::*;

use crate::tag::{law_tag_marks_its_bits, Tag, TagError};
use crate::term::Term;

verus! {

/// A word is decoded by its low bits alone: to a list or a boxed term by two of them, to a local
/// pid, a local port or a small integer by four, and to any other tag by six.
pub proof fn law_words_are_decoded_by_their_low_bits(bits: usize, result: Result<Tag, TagError>)
    requires
        call_ensures(<Tag as TryFrom<usize>>::try_from, (bits,), result),
    ensures
        result == Ok::<Tag, TagError>(Tag::List) <==> bits % 4 == 0b01,
        result == Ok::<Tag, TagError>(Tag::Boxed) <==> bits % 4 == 0b10,
        result == Ok::<Tag, TagError>(Tag::LocalPid) <==> bits % 16 == 0b00_11,
        result == Ok::<Tag, TagError>(Tag::LocalPort) <==> bits % 16 == 0b01_11,
        result == Ok::<Tag, TagError>(Tag::SmallInteger) <==> bits % 16 == 0b11_11,
        result == Ok::<Tag, TagError>(Tag::Atom) <==> bits % 64 == 0b00_10_11,
        result == Ok::<Tag, TagError>(Tag::CatchPointer) <==> bits % 64 == 0b01_10_11,
        result == Ok::<Tag, TagError>(Tag::EmptyList) <==> bits % 64 == 0b11_10_11,
        result == Ok::<Tag, TagError>(Tag::Arity) <==> bits % 64 == 0b0000_00,
        result == Ok::<Tag, TagError>(Tag::BinaryAggregate) <==> bits % 64 == 0b0001_00,
        result == Ok::<Tag, TagError>(Tag::PositiveBigNumber) <==> bits % 64 == 0b0010_00,
        result == Ok::<Tag, TagError>(Tag::NegativeBigNumber) <==> bits % 64 == 0b0011_00,
        result == Ok::<Tag, TagError>(Tag::Reference) <==> bits % 64 == 0b0100_00,
        result == Ok::<Tag, TagError>(Tag::Function) <==> bits % 64 == 0b0101_00,
        result == Ok::<Tag, TagError>(Tag::Float) <==> bits % 64 == 0b0110_00,
        result == Ok::<Tag, TagError>(Tag::Export) <==> bits % 64 == 0b0111_00,
        result == Ok::<Tag, TagError>(Tag::ReferenceCountedBinary) <==> bits % 64 == 0b1000_00,
        result == Ok::<Tag, TagError>(Tag::HeapBinary) <==> bits % 64 == 0b1001_00,
        result == Ok::<Tag, TagError>(Tag::Subbinary) <==> bits % 64 == 0b1010_00,
        result == Ok::<Tag, TagError>(Tag::ExternalPid) <==> bits % 64 == 0b1100_00,
        result == Ok::<Tag, TagError>(Tag::ExternalPort) <==> bits % 64 == 0b1101_00,
        result == Ok::<Tag, TagError>(Tag::ExternalReference) <==> bits % 64 == 0b1110_00,
        result == Ok::<Tag, TagError>(Tag::MapHeader) <==> bits % 64 == 0b1111_00,
        result is Err <==> bits % 64 == 0b1011_00 || bits % 64 == 0b10_10_11,
        result matches Err(error) ==> error.tag == bits % 64 && error.bit_count == 6,
{
    let ok = |tag: Tag| result == Ok::<Tag, TagError>(tag);
    assert forall|tag: Tag| #[trigger] tag.marks(bits) <==> ok(tag) by {}
    assert(Tag::List.marks(bits) == ok(Tag::List));
    assert(Tag::Boxed.marks(bits) == ok(Tag::Boxed));
    assert(Tag::LocalPid.marks(bits) == ok(Tag::LocalPid));
    assert(Tag::LocalPort.marks(bits) == ok(Tag::LocalPort));
    assert(Tag::SmallInteger.marks(bits) == ok(Tag::SmallInteger));
    assert(Tag::Atom.marks(bits) == ok(Tag::Atom));
    assert(Tag::CatchPointer.marks(bits) == ok(Tag::CatchPointer));
    assert(Tag::EmptyList.marks(bits) == ok(Tag::EmptyList));
    assert(Tag::Arity.marks(bits) == ok(Tag::Arity));
    assert(Tag::BinaryAggregate.marks(bits) == ok(Tag::BinaryAggregate));
    assert(Tag::PositiveBigNumber.marks(bits) == ok(Tag::PositiveBigNumber));
    assert(Tag::NegativeBigNumber.marks(bits) == ok(Tag::NegativeBigNumber));
    assert(Tag::Reference.marks(bits) == ok(Tag::Reference));
    assert(Tag::Function.marks(bits) == ok(Tag::Function));
    assert(Tag::Float.marks(bits) == ok(Tag::Float));
    assert(Tag::Export.marks(bits) == ok(Tag::Export));
    assert(Tag::ReferenceCountedBinary.marks(bits) == ok(Tag::ReferenceCountedBinary));
    assert(Tag::HeapBinary.marks(bits) == ok(Tag::HeapBinary));
    assert(Tag::Subbinary.marks(bits) == ok(Tag::Subbinary));
    assert(Tag::ExternalPid.marks(bits) == ok(Tag::ExternalPid));
    assert(Tag::ExternalPort.marks(bits) == ok(Tag::ExternalPort));
    assert(Tag::ExternalReference.marks(bits) == ok(Tag::ExternalReference));
    assert(Tag::MapHeader.marks(bits) == ok(Tag::MapHeader));
}

/// A term carries the tag that its word is decoded to.
pub proof fn law_terms_carry_the_tag_of_their_word(
    term: Term,
    found: Tag,
    result: Result<Tag, TagError>,
)
    requires
        term.tagged % 64 != 0b1011_00,
        term.tagged % 64 != 0b10_10_11,
        call_ensures(Term::tag, (&term,), found),
        call_ensures(<Tag as TryFrom<usize>>::try_from, (term.tagged,), result),
    ensures
        result == Ok::<Tag, TagError>(found),
{
    law_words_are_decoded_by_their_low_bits(term.tagged, result);
    let decoded = result->Ok_0;
    assert(decoded.marks(term.tagged));
    assert(term.has_tag(decoded));
}

/// The bits of a tag are decoded to it, and are no wider than what tells it from the others.
pub proof fn law_bits_are_decoded_to_their_tag(
    tag: Tag,
    bits: usize,
    result: Result<Tag, TagError>,
)
    requires
        call_ensures(Tag::bits, (tag,), bits),
        call_ensures(<Tag as TryFrom<usize>>::try_from, (bits,), result),
    ensures
        result == Ok::<Tag, TagError>(tag),
        bits < 64,
        tag is List || tag is Boxed ==> bits < 4,
        tag is LocalPid || tag is LocalPort || tag is SmallInteger ==> bits < 16,
{
    law_tag_marks_its_bits(tag);
    law_words_are_decoded_by_their_low_bits(bits, result);
}

/// Every word whose six low bits are assigned has a tag to ask for.
pub proof fn law_every_assigned_word_can_be_asked_for_its_tag(term: Term)
    requires
        term.tagged % 64 != 0b1011_00,
        term.tagged % 64 != 0b10_10_11,
    ensures
        call_requires(Term::tag, (&term,)),
{
}

} // verus!
