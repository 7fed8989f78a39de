use lumen_runtime::atom::Index;
use lumen_runtime::environment::Environment;
use lumen_runtime::process::{IntoProcess, Process};
use lumen_runtime::tag::{Tag, TagError};
use lumen_runtime::term::{
    BadArgument, Term, MAX_ATOM_INDEX, MAX_SMALL_INTEGER, MIN_SMALL_INTEGER,
};

fn integer(value: isize) -> Term {
    value.into_process(&mut Process::new(Environment::new()))
}

const TAGS: [(usize, usize, Tag); 23] = [
    (0b0000_00, 6, Tag::Arity),
    (0b0001_00, 6, Tag::BinaryAggregate),
    (0b0010_00, 6, Tag::PositiveBigNumber),
    (0b0011_00, 6, Tag::NegativeBigNumber),
    (0b0100_00, 6, Tag::Reference),
    (0b0101_00, 6, Tag::Function),
    (0b0110_00, 6, Tag::Float),
    (0b0111_00, 6, Tag::Export),
    (0b1000_00, 6, Tag::ReferenceCountedBinary),
    (0b1001_00, 6, Tag::HeapBinary),
    (0b1010_00, 6, Tag::Subbinary),
    (0b1100_00, 6, Tag::ExternalPid),
    (0b1101_00, 6, Tag::ExternalPort),
    (0b1110_00, 6, Tag::ExternalReference),
    (0b1111_00, 6, Tag::MapHeader),
    (0b01, 2, Tag::List),
    (0b10, 2, Tag::Boxed),
    (0b00_11, 4, Tag::LocalPid),
    (0b01_11, 4, Tag::LocalPort),
    (0b00_10_11, 6, Tag::Atom),
    (0b01_10_11, 6, Tag::CatchPointer),
    (0b11_10_11, 6, Tag::EmptyList),
    (0b11_11, 4, Tag::SmallInteger),
];

#[test]
fn every_tag_is_found_under_any_payload() {
    for (bits, width, tag) in TAGS {
        assert_eq!(tag.bits(), bits);
        for payload in [0, 1, 2, 5, 1023] {
            let word = (payload << width) | bits;
            assert_eq!(Tag::try_from(word), Ok(tag));
            assert_eq!(Term { tagged: word }.tag(), tag);
        }
    }
}

#[test]
fn every_word_carries_one_tag_or_an_unassigned_pattern() {
    for word in 0..4096usize {
        let matching: Vec<Tag> = TAGS
            .iter()
            .filter(|(bits, width, _)| word % (1 << width) == *bits)
            .map(|(_, _, tag)| *tag)
            .collect();
        match Tag::try_from(word) {
            Ok(tag) => assert_eq!(matching, vec![tag]),
            Err(error) => {
                assert!(matching.is_empty());
                assert_eq!(error, TagError { tag: word % 64, bit_count: 6 });
            }
        }
    }
}

#[test]
fn unassigned_patterns_are_errors() {
    let header = Tag::try_from(0b1_1011_00).unwrap_err();
    assert_eq!(header, TagError { tag: 0b1011_00, bit_count: 6 });
    assert_eq!(header.message(), "101100 is not a valid Term tag");

    let immediate = Tag::try_from(0b1_10_10_11).unwrap_err();
    assert_eq!(immediate, TagError { tag: 0b10_10_11, bit_count: 6 });
    assert_eq!(immediate.message(), "101011 is not a valid Term tag");
}

#[test]
fn tag_errors_are_padded_with_zeros() {
    let narrow = TagError { tag: 0b101, bit_count: 6 };
    assert_eq!(narrow.message(), "000101 is not a valid Term tag");

    let wide = TagError { tag: 0b101, bit_count: 2 };
    assert_eq!(wide.message(), "101 is not a valid Term tag");

    let zero = TagError { tag: 0, bit_count: 0 };
    assert_eq!(zero.message(), "0 is not a valid Term tag");
}

#[test]
fn terms_are_written_in_base_two() {
    for tagged in [0, 1, 0b11_10_11, 0xabcd, usize::MAX] {
        let expected = format!(
            "Term {{ tagged: 0b{:0width$b} }}",
            tagged,
            width = usize::BITS as usize
        );
        assert_eq!(Term { tagged }.in_binary(), expected);
    }
}

#[test]
fn bad_arguments_have_a_message() {
    assert_eq!(BadArgument.message(), "bad argument");
}

#[test]
fn the_empty_list_is_one_word() {
    assert_eq!(Term::empty_list().tagged, 0b11_10_11);
    assert_eq!(Term::empty_list().tag(), Tag::EmptyList);
}

#[test]
fn arities_are_read_back() {
    for arity in [0, 1, 2, 63, 64, Term::MAX_ARITY] {
        let term = Term::arity(arity);
        assert_eq!(term.tagged, arity * 64);
        assert_eq!(term.tag(), Tag::Arity);
        assert_eq!(term.to_usize(), arity);
    }
}

#[test]
fn atom_numbers_are_read_back() {
    for index in [0, 1, 2, 63, 64, MAX_ATOM_INDEX] {
        let term = Term::from(Index(index));
        assert_eq!(term.tagged, index * 64 + 0b00_10_11);
        assert_eq!(term.tag(), Tag::Atom);
        assert_eq!(Index::from(&term), Index(index));
    }
}

#[test]
fn integers_are_read_back() {
    for value in [
        0,
        1,
        -1,
        2,
        -2,
        1000,
        -1000,
        MAX_SMALL_INTEGER,
        MAX_SMALL_INTEGER - 1,
        MIN_SMALL_INTEGER,
        MIN_SMALL_INTEGER + 1,
    ] {
        let term = integer(value);
        assert_eq!(term.tag(), Tag::SmallInteger);
        assert_eq!(term.to_isize(), value);
    }
}

#[test]
fn integers_have_exact_words() {
    assert_eq!(integer(0).tagged, 0b11_11);
    assert_eq!(integer(1).tagged, 31);
    assert_eq!(integer(-1).tagged, usize::MAX);
    assert_eq!(integer(-2).tagged, usize::MAX - 16);
    assert_eq!(integer(MAX_SMALL_INTEGER).tagged, isize::MAX as usize);
    assert_eq!(integer(MIN_SMALL_INTEGER).tagged, isize::MIN as usize + 15);
}

#[test]
fn unsigned_integers_are_those_of_the_same_value() {
    let mut process = Process::new(Environment::new());
    for value in [0usize, 1, 2, 1000, MAX_SMALL_INTEGER as usize] {
        let term: Term = value.into_process(&mut process);
        assert_eq!(term.tagged, integer(value as isize).tagged);
    }
}

#[test]
fn limits_leave_room_for_the_tag() {
    assert_eq!(MAX_SMALL_INTEGER, isize::MAX >> 4);
    assert_eq!(MIN_SMALL_INTEGER, isize::MIN >> 4);
    assert_eq!(MAX_ATOM_INDEX, (usize::MAX << 6) >> 6);
    assert_eq!(Term::MAX_ARITY, usize::MAX >> 6);
}

#[test]
fn absolute_values_are_distances_from_zero() {
    for value in [0, 1, -1, 7, -7, MAX_SMALL_INTEGER, -MAX_SMALL_INTEGER] {
        let absolute = integer(value).abs().unwrap();
        assert_eq!(absolute.to_isize(), value.abs());
        assert_eq!(absolute.abs().unwrap().tagged, absolute.tagged);
        assert_eq!(integer(-value).abs().unwrap().tagged, absolute.tagged);
    }
}

#[test]
fn the_least_integer_has_no_opposite() {
    let least = integer(MIN_SMALL_INTEGER);
    assert_eq!(least.abs().unwrap().tagged, least.tagged);
}
