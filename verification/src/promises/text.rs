//! Promises on texts.

use vstd::prelude::*;

use crate::binary::{append_padded, digit, digits, padded_digits};
use crate::tag::TagError;
use crate::term::{BadArgument, Term};

verus! {

/// The number that a text of zeros and ones stands for in base two.
pub open spec fn number_in(text: Seq<char>) -> nat
    decreases text.len(),
{
    if text.len() == 0 {
        0
    } else {
        2 * number_in(text.drop_last()) + if text.last() == '1' {
            1nat
        } else {
            0nat
        }
    }
}

/// Whether the text is `number` in base two in at least `width` digits, and in no more than it
/// takes.
pub open spec fn writes_in_base_two(text: Seq<char>, number: nat, width: nat) -> bool {
    &&& text.len() >= 1
    &&& text.len() >= width
    &&& text.len() > width && text.len() > 1 ==> text[0] == '1'
    &&& forall|i: int| 0 <= i < text.len() ==> (#[trigger] text[i] == '0' || text[i] == '1')
    &&& number_in(text) == number
}

/// The digits of a number stand for it and have no zero in front.
proof fn lemma_digits(number: nat)
    ensures
        writes_in_base_two(digits(number), number, 1),
    decreases number,
{
    if number < 2 {
        assert(seq![digit(number)].drop_last() == Seq::<char>::empty());
        assert(number_in(Seq::<char>::empty()) == 0);
    } else {
        lemma_digits(number / 2);
        let front = digits(number / 2);
        assert(digits(number).drop_last() == front);
        assert(digits(number)[0] == front[0]);
        if front.len() == 1 {
            assert(front.drop_last() == Seq::<char>::empty());
            assert(number_in(Seq::<char>::empty()) == 0);
        }
    }
}

/// Zeros in front of a text do not change the number that it stands for.
proof fn lemma_zeros_in_front(zeros: Seq<char>, text: Seq<char>)
    requires
        forall|i: int| 0 <= i < zeros.len() ==> #[trigger] zeros[i] == '0',
    ensures
        number_in(zeros + text) == number_in(text),
    decreases zeros.len() + text.len(),
{
    if text.len() > 0 {
        assert((zeros + text).drop_last() == zeros + text.drop_last());
        lemma_zeros_in_front(zeros, text.drop_last());
    } else if zeros.len() > 0 {
        assert((zeros + text).drop_last() == zeros.drop_last() + text);
        lemma_zeros_in_front(zeros.drop_last(), text);
    }
}

/// Padded digits are what they say.
proof fn lemma_padded_digits(number: nat, width: nat)
    ensures
        writes_in_base_two(padded_digits(number, width), number, width),
{
    lemma_digits(number);
    let missing = width - digits(number).len();
    let zeros = Seq::new(if missing > 0 { missing as nat } else { 0 }, |i: int| '0');
    lemma_zeros_in_front(zeros, digits(number));
    let text = padded_digits(number, width);
    assert(text == zeros + digits(number));
    assert forall|i: int| 0 <= i < text.len() implies (#[trigger] text[i] == '0' || text[i]
        == '1') by {
        if i >= zeros.len() {
            assert(text[i] == digits(number)[i - zeros.len()]);
        }
    }
    if zeros.len() == 0 {
        assert(text == digits(number));
    }
}

/// Appending a number to a text writes it in base two behind the text, with zeros in front up to
/// the width.
pub proof fn law_numbers_are_appended_in_base_two(text: &mut String, number: usize, width: usize)
    requires
        call_ensures(append_padded, (text, number, width), ()),
    ensures
        old(text)@.is_prefix_of(final(text)@),
        writes_in_base_two(
            final(text)@.skip(old(text)@.len() as int),
            number as nat,
            width as nat,
        ),
{
    lemma_padded_digits(number as nat, width as nat);
    assert(final(text)@.skip(old(text)@.len() as int) == padded_digits(
        number as nat,
        width as nat,
    ));
}

/// The message of a tag error is the offending bits in base two, with zeros in front up to their
/// number, and what is wrong with them.
pub proof fn law_tag_errors_show_the_bits(error: TagError, text: String)
    requires
        call_ensures(TagError::message, (&error,), text),
    ensures
        exists|bits: Seq<char>| #[trigger]
            writes_in_base_two(bits, error.tag as nat, error.bit_count as nat) && text@ == bits
                + " is not a valid Term tag"@,
{
    lemma_padded_digits(error.tag as nat, error.bit_count as nat);
}

/// The text of a term shows its whole word in base two.
pub proof fn law_terms_show_their_word(term: Term, text: String)
    requires
        call_ensures(Term::in_binary, (&term,), text),
    ensures
        exists|bits: Seq<char>| #[trigger]
            writes_in_base_two(bits, term.tagged as nat, usize::BITS as nat) && text@
                == "Term { tagged: 0b"@ + bits + " }"@,
{
    lemma_padded_digits(term.tagged as nat, usize::BITS as nat);
}

/// The message of a bad argument says that it is one.
pub proof fn law_bad_arguments_are_named(error: BadArgument, text: String)
    requires
        call_ensures(BadArgument::message, (&error,), text),
    ensures
        text@ == "bad argument"@,
{
}

} // verus!
