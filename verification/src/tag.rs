//! The tags in the low bits of a term's word.

use vstd::prelude::*;
use vstd::string::StringExecFns;

use crate::binary::{append_padded, padded_digits};

verus! {

/// What a term's word holds, told by its low bits.
///
/// The two lowest bits (the primary tag) tell apart headers (`00`), lists (`01`), boxed terms
/// (`10`) and immediates (`11`). Headers and immediates use further bits, so the width of a tag
/// differs from tag to tag: see [`Tag::marks`].
#[derive(Clone, Copy, Debug, PartialEq, Eq, Structural)]
pub enum Tag {
    Arity,
    BinaryAggregate,
    PositiveBigNumber,
    NegativeBigNumber,
    Reference,
    Function,
    Float,
    Export,
    ReferenceCountedBinary,
    HeapBinary,
    Subbinary,
    ExternalPid,
    ExternalPort,
    ExternalReference,
    MapHeader,
    List,
    Boxed,
    LocalPid,
    LocalPort,
    Atom,
    CatchPointer,
    EmptyList,
    SmallInteger,
}

/// Low bits that belong to no tag.
#[derive(Clone, Copy, Debug, PartialEq, Eq, Structural)]
pub struct TagError {
    /// The offending low bits.
    pub tag: usize,
    /// How many low bits `tag` was taken from.
    pub bit_count: usize,
}

const HEADER_PRIMARY_TAG_MASK: usize = 0b1111_11;

const IMMEDIATE_PRIMARY_TAG_MASK: usize = 0b11_11;

const IMMEDIATE_IMMEDIATE_PRIMARY_TAG_MASK: usize = 0b11_11_11;

impl TagError {
    /// The error in words.
    pub fn message(&self) -> (text: String)
        ensures
            text@ == padded_digits(self.tag as nat, self.bit_count as nat)
                + " is not a valid Term tag"@,
    {
        let mut text = String::new();
        append_padded(&mut text, self.tag, self.bit_count);
        text.append(" is not a valid Term tag");
        text
    }
}

impl Tag {
    pub const PRIMARY_MASK: usize = 0b11;

    pub const ATOM_BIT_COUNT: u8 = 6;

    pub const ARITY_BIT_COUNT: u8 = 6;

    /// The low bits of every word that carries this tag.
    pub open spec fn pattern(self) -> usize {
        match self {
            Tag::Arity => 0b0000_00,
            Tag::BinaryAggregate => 0b0001_00,
            Tag::PositiveBigNumber => 0b0010_00,
            Tag::NegativeBigNumber => 0b0011_00,
            Tag::Reference => 0b0100_00,
            Tag::Function => 0b0101_00,
            Tag::Float => 0b0110_00,
            Tag::Export => 0b0111_00,
            Tag::ReferenceCountedBinary => 0b1000_00,
            Tag::HeapBinary => 0b1001_00,
            Tag::Subbinary => 0b1010_00,
            Tag::ExternalPid => 0b1100_00,
            Tag::ExternalPort => 0b1101_00,
            Tag::ExternalReference => 0b1110_00,
            Tag::MapHeader => 0b1111_00,
            Tag::List => 0b01,
            Tag::Boxed => 0b10,
            Tag::LocalPid => 0b00_11,
            Tag::LocalPort => 0b01_11,
            Tag::Atom => 0b00_10_11,
            Tag::CatchPointer => 0b01_10_11,
            Tag::EmptyList => 0b11_10_11,
            Tag::SmallInteger => 0b11_11,
        }
    }

    /// Whether the low bits of `bits`, as many as the tag is wide, are this tag.
    pub open spec fn marks(self, bits: usize) -> bool {
        match self {
            Tag::List | Tag::Boxed => bits % 4 == self.pattern(),
            Tag::LocalPid | Tag::LocalPort | Tag::SmallInteger => bits % 16 == self.pattern(),
            _ => bits % 64 == self.pattern(),
        }
    }

    /// Whether the low bits of `bits` are one of the two six-bit patterns that no tag has.
    pub open spec fn unassigned(bits: usize) -> bool {
        bits % 64 == 0b1011_00 || bits % 64 == 0b10_10_11
    }

    /// The tag that the low bits of `bits` are, where they are one.
    pub open spec fn of(bits: usize) -> Tag {
        choose|tag: Tag| tag.marks(bits)
    }

    /// The tag's low bits.
    pub fn bits(self) -> (bits: usize)
        ensures
            bits == self.pattern(),
    {
        match self {
            Tag::Arity => 0b0000_00,
            Tag::BinaryAggregate => 0b0001_00,
            Tag::PositiveBigNumber => 0b0010_00,
            Tag::NegativeBigNumber => 0b0011_00,
            Tag::Reference => 0b0100_00,
            Tag::Function => 0b0101_00,
            Tag::Float => 0b0110_00,
            Tag::Export => 0b0111_00,
            Tag::ReferenceCountedBinary => 0b1000_00,
            Tag::HeapBinary => 0b1001_00,
            Tag::Subbinary => 0b1010_00,
            Tag::ExternalPid => 0b1100_00,
            Tag::ExternalPort => 0b1101_00,
            Tag::ExternalReference => 0b1110_00,
            Tag::MapHeader => 0b1111_00,
            Tag::List => 0b01,
            Tag::Boxed => 0b10,
            Tag::LocalPid => 0b00_11,
            Tag::LocalPort => 0b01_11,
            Tag::Atom => 0b00_10_11,
            Tag::CatchPointer => 0b01_10_11,
            Tag::EmptyList => 0b11_10_11,
            Tag::SmallInteger => 0b11_11,
        }
    }
}

/// The mask of the low two, four or six bits keeps the remainder by four, sixteen or sixty-four.
proof fn lemma_masks(bits: usize)
    ensures
        bits & 0b11 == bits % 4,
        bits & 0b11_11 == bits % 16,
        bits & 0b1111_11 == bits % 64,
        bits % 64 % 16 == bits % 16,
        bits % 64 % 4 == bits % 4,
{
    assert(bits & 0b11 == bits % 4) by (bit_vector);
    assert(bits & 0b11_11 == bits % 16) by (bit_vector);
    assert(bits & 0b1111_11 == bits % 64) by (bit_vector);
}

/// No word carries two tags.
pub proof fn law_tag_is_unique(bits: usize, a: Tag, b: Tag)
    requires
        a.marks(bits),
        b.marks(bits),
    ensures
        a == b,
{
    lemma_masks(bits);
}

/// The bits of a tag are a word that carries this tag.
pub proof fn law_tag_marks_its_bits(tag: Tag)
    ensures
        tag.marks(tag.pattern()),
{
}

/// Every word but those with an unassigned pattern carries a tag.
proof fn lemma_assigned_words(bits: usize)
    requires
        !Tag::unassigned(bits),
    ensures
        Tag::of(bits).marks(bits),
{
    lemma_masks(bits);
    assert({
        ||| Tag::Arity.marks(bits)
        ||| Tag::BinaryAggregate.marks(bits)
        ||| Tag::PositiveBigNumber.marks(bits)
        ||| Tag::NegativeBigNumber.marks(bits)
        ||| Tag::Reference.marks(bits)
        ||| Tag::Function.marks(bits)
        ||| Tag::Float.marks(bits)
        ||| Tag::Export.marks(bits)
        ||| Tag::ReferenceCountedBinary.marks(bits)
        ||| Tag::HeapBinary.marks(bits)
        ||| Tag::Subbinary.marks(bits)
        ||| Tag::ExternalPid.marks(bits)
        ||| Tag::ExternalPort.marks(bits)
        ||| Tag::ExternalReference.marks(bits)
        ||| Tag::MapHeader.marks(bits)
        ||| Tag::List.marks(bits)
        ||| Tag::Boxed.marks(bits)
        ||| Tag::LocalPid.marks(bits)
        ||| Tag::LocalPort.marks(bits)
        ||| Tag::Atom.marks(bits)
        ||| Tag::CatchPointer.marks(bits)
        ||| Tag::EmptyList.marks(bits)
        ||| Tag::SmallInteger.marks(bits)
    });
}

/// A word carries no tag exactly when its six low bits are one of the two unassigned patterns.
pub proof fn law_untagged_words(bits: usize)
    ensures
        Tag::unassigned(bits) <==> (forall|tag: Tag| !tag.marks(bits)),
{
    lemma_masks(bits);
    if !Tag::unassigned(bits) {
        lemma_assigned_words(bits);
    }
}

impl vstd::std_specs::convert::TryFromSpecImpl<usize> for Tag {
    open spec fn obeys_try_from_spec() -> bool {
        true
    }

    open spec fn try_from_spec(bits: usize) -> Result<Tag, TagError> {
        if Tag::unassigned(bits) {
            Err(TagError { tag: bits % 64, bit_count: 6 })
        } else {
            Ok(Tag::of(bits))
        }
    }
}

impl TryFrom<usize> for Tag {
    type Error = TagError;

    /// The tag in the low bits of `bits`.
    fn try_from(bits: usize) -> (result: Result<Tag, TagError>)
        ensures
            result matches Ok(found) ==> (forall|tag: Tag| tag.marks(bits) <==> tag == found),
            result is Err <==> Tag::unassigned(bits),
            result matches Err(error) ==> error == (TagError { tag: bits % 64, bit_count: 6 }),
    {
        proof {
            lemma_masks(bits);
        }
        let result = match bits & Tag::PRIMARY_MASK {
            0b00 => match bits & HEADER_PRIMARY_TAG_MASK {
                0b0000_00 => Ok(Tag::Arity),
                0b0001_00 => Ok(Tag::BinaryAggregate),
                0b0010_00 => Ok(Tag::PositiveBigNumber),
                0b0011_00 => Ok(Tag::NegativeBigNumber),
                0b0100_00 => Ok(Tag::Reference),
                0b0101_00 => Ok(Tag::Function),
                0b0110_00 => Ok(Tag::Float),
                0b0111_00 => Ok(Tag::Export),
                0b1000_00 => Ok(Tag::ReferenceCountedBinary),
                0b1001_00 => Ok(Tag::HeapBinary),
                0b1010_00 => Ok(Tag::Subbinary),
                0b1100_00 => Ok(Tag::ExternalPid),
                0b1101_00 => Ok(Tag::ExternalPort),
                0b1110_00 => Ok(Tag::ExternalReference),
                0b1111_00 => Ok(Tag::MapHeader),
                tag => Err(TagError { tag, bit_count: 6 }),
            },
            0b01 => Ok(Tag::List),
            0b10 => Ok(Tag::Boxed),
            0b11 => match bits & IMMEDIATE_PRIMARY_TAG_MASK {
                0b00_11 => Ok(Tag::LocalPid),
                0b01_11 => Ok(Tag::LocalPort),
                0b10_11 => match bits & IMMEDIATE_IMMEDIATE_PRIMARY_TAG_MASK {
                    0b00_10_11 => Ok(Tag::Atom),
                    0b01_10_11 => Ok(Tag::CatchPointer),
                    0b11_10_11 => Ok(Tag::EmptyList),
                    tag => Err(TagError { tag, bit_count: 6 }),
                },
                0b11_11 => Ok(Tag::SmallInteger),
                tag => Err(TagError { tag, bit_count: 4 }),
            },
            tag => Err(TagError { tag, bit_count: 2 }),
        };
        proof {
            if let Ok(found) = result {
                lemma_assigned_words(bits);
                law_tag_is_unique(bits, Tag::of(bits), found);
            }
        }
        result
    }
}

} // verus!
