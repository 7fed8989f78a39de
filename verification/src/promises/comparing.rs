//! Promises on comparing terms.

use vstd::prelude::*;

use crate::compare::{
    law_comparable_lists, law_comparable_tuples, law_equality_of_lists, law_equality_of_tuples,
    law_equality_of_words, law_tuples_of_different_sizes_differ,
};
use crate::equality::{comparable, same_value};
use crate::process::{Process, ProcessView};
use crate::tag::{law_tag_is_unique, Tag};
use crate::term::Term;

verus! {

/// Two terms are different exactly where they are not the same.
pub proof fn law_different_is_not_the_same(
    a: Term,
    b: Term,
    process: &Process,
    same: bool,
    differ: bool,
)
    requires
        call_ensures(Term::eq, (&a, &b, process), same),
        call_ensures(Term::ne, (&a, &b, process), differ),
    ensures
        differ == !same,
{
}

/// Terms that are not both lists and not both boxed are the same exactly where they are the same
/// word.
pub proof fn law_words_are_compared_as_they_are(a: Term, b: Term, process: &Process, same: bool)
    requires
        !(a.tagged % 4 == 0b01 && b.tagged % 4 == 0b01),
        !(a.tagged % 4 == 0b10 && b.tagged % 4 == 0b10),
        call_ensures(Term::eq, (&a, &b, process), same),
    ensures
        same <==> a.tagged == b.tagged,
{
    law_equality_of_words(process@, a, b);
}

/// Two lists are the same exactly where their heads are and their tails are.
pub proof fn law_lists_are_compared_element_by_element(
    a: Term,
    b: Term,
    process: &Process,
    same: bool,
    same_heads: bool,
    same_tails: bool,
)
    requires
        a.tagged % 4 == 0b01,
        b.tagged % 4 == 0b01,
        call_ensures(Term::eq, (&a, &b, process), same),
        call_ensures(
            Term::eq,
            (
                &process@.conses[a.tagged as int / 4 - 1].head,
                &process@.conses[b.tagged as int / 4 - 1].head,
                process,
            ),
            same_heads,
        ),
        call_ensures(
            Term::eq,
            (
                &process@.conses[a.tagged as int / 4 - 1].tail,
                &process@.conses[b.tagged as int / 4 - 1].tail,
                process,
            ),
            same_tails,
        ),
    ensures
        same <==> same_heads && same_tails,
{
    law_equality_of_lists(process@, a, b);
}

/// Two tuples of different sizes are different.
pub proof fn law_tuples_are_compared_by_size_first(a: Term, b: Term, process: &Process, same: bool)
    requires
        a.tagged % 4 == 0b10,
        b.tagged % 4 == 0b10,
        process@.words[a.tagged as int / 4 - 1].tagged as int / 64
            != process@.words[b.tagged as int / 4 - 1].tagged as int / 64,
        call_ensures(Term::eq, (&a, &b, process), same),
    ensures
        !same,
{
    law_equality_of_tuples(process@, a, b);
}

/// Where an element of a boxed term is among the words.
proof fn lemma_element(process: ProcessView, term: Term, i: int)
    requires
        term.has_tag(Tag::Boxed),
    ensures
        process.element(term, i) == process.words[term.tagged as int / 4 + i],
{
}

/// Tuples that are the same have the same elements.
pub proof fn law_same_tuples_have_the_same_elements(
    a: Term,
    b: Term,
    process: &Process,
    i: int,
    same_elements: bool,
)
    requires
        a.tagged % 4 == 0b10,
        b.tagged % 4 == 0b10,
        0 <= i < process@.words[a.tagged as int / 4 - 1].tagged as int / 64,
        call_ensures(Term::eq, (&a, &b, process), true),
        call_ensures(
            Term::eq,
            (
                &process@.words[a.tagged as int / 4 + i],
                &process@.words[b.tagged as int / 4 + i],
                process,
            ),
            same_elements,
        ),
    ensures
        same_elements,
{
    law_equality_of_tuples(process@, a, b);
    lemma_element(process@, a, i);
    lemma_element(process@, b, i);
    assert(same_value(process@, process@.element(a, i), process@.element(b, i)));
}

/// Tuples of the same size are the same where each pair of their elements is.
pub proof fn law_tuples_of_the_same_elements_are_the_same(
    a: Term,
    b: Term,
    process: &Process,
    same: bool,
)
    requires
        a.tagged % 4 == 0b10,
        b.tagged % 4 == 0b10,
        process@.words[a.tagged as int / 4 - 1].tagged as int / 64
            == process@.words[b.tagged as int / 4 - 1].tagged as int / 64,
        forall|i: int, j: int|
            0 <= i - a.tagged as int / 4 < process@.words[a.tagged as int / 4 - 1].tagged as int
                / 64 && i - a.tagged as int / 4 == j - b.tagged as int / 4 ==> call_ensures(
                Term::eq,
                (&#[trigger] process@.words[i], &#[trigger] process@.words[j], process),
                true,
            ),
        call_ensures(Term::eq, (&a, &b, process), same),
    ensures
        same,
{
    law_equality_of_tuples(process@, a, b);
    assert forall|i: int| 0 <= i < process@.arity(a) implies same_value(
        process@,
        #[trigger] process@.element(a, i),
        process@.element(b, i),
    ) by {
        lemma_element(process@, a, i);
        lemma_element(process@, b, i);
        let (at, other_at) = (a.tagged as int / 4 + i, b.tagged as int / 4 + i);
        assert(call_ensures(
            Term::eq,
            (&process@.words[at], &process@.words[other_at], process),
            true,
        ));
    }
}

/// Atoms, empty lists and small integers can be compared with any tagged term, but a small integer
/// with no boxed term other than a tuple.
pub proof fn law_immediates_can_be_compared(a: Term, b: Term, process: &Process)
    requires
        a.tagged % 16 == 0b11_11 || a.tagged % 64 == 0b00_10_11 || a.tagged % 64 == 0b11_10_11,
        b.tagged % 64 != 0b1011_00,
        b.tagged % 64 != 0b10_10_11,
        a.tagged % 16 == 0b11_11 && b.tagged % 4 == 0b10 ==> {
            &&& 4 < b.tagged
            &&& b.tagged as int / 4 <= process@.words.len()
            &&& process@.words[b.tagged as int / 4 - 1].tagged % 64 == 0
        },
    ensures
        comparable(process@, a, b),
        comparable(process@, b, a),
        call_requires(Term::eq, (&a, &b, process)),
        call_requires(Term::eq, (&b, &a, process)),
        call_requires(Term::ne, (&a, &b, process)),
        call_requires(Term::ne, (&b, &a, process)),
{
}

/// A list that is not empty can be compared with a boxed term and with an integer.
pub proof fn law_lists_can_be_compared_with_other_terms(
    list: Term,
    boxed: Term,
    integer: Term,
    process: &Process,
)
    requires
        list.tagged % 4 == 0b01,
        boxed.tagged % 4 == 0b10,
        integer.tagged % 16 == 0b11_11,
    ensures
        comparable(process@, list, boxed),
        comparable(process@, boxed, list),
        comparable(process@, list, integer),
        comparable(process@, integer, list),
        call_requires(Term::eq, (&list, &boxed, process)),
        call_requires(Term::eq, (&boxed, &list, process)),
        call_requires(Term::eq, (&list, &integer, process)),
        call_requires(Term::eq, (&integer, &list, process)),
{
    assert forall|tag: Tag| !(list.has_tag(tag) && boxed.has_tag(tag)) by {
        if list.has_tag(tag) && boxed.has_tag(tag) {
            law_tag_is_unique(list.tagged, tag, Tag::List);
            law_tag_is_unique(boxed.tagged, tag, Tag::Boxed);
        }
    }
}

/// Two lists can be compared where their heads can and, unless those differ, their tails can.
pub proof fn law_lists_can_be_compared(a: Term, b: Term, process: &Process, same_heads: bool)
    requires
        a.tagged % 4 == 0b01,
        4 < a.tagged,
        a.tagged as int / 4 <= process@.conses.len(),
        b.tagged % 4 == 0b01,
        4 < b.tagged,
        b.tagged as int / 4 <= process@.conses.len(),
        comparable(
            process@,
            process@.conses[a.tagged as int / 4 - 1].head,
            process@.conses[b.tagged as int / 4 - 1].head,
        ),
        call_ensures(
            Term::eq,
            (
                &process@.conses[a.tagged as int / 4 - 1].head,
                &process@.conses[b.tagged as int / 4 - 1].head,
                process,
            ),
            same_heads,
        ),
        same_heads ==> comparable(
            process@,
            process@.conses[a.tagged as int / 4 - 1].tail,
            process@.conses[b.tagged as int / 4 - 1].tail,
        ),
    ensures
        comparable(process@, a, b),
        call_requires(Term::eq, (&a, &b, process)),
        call_requires(Term::ne, (&a, &b, process)),
{
    law_comparable_lists(process@, a, b);
}

/// Two tuples of which all words are the process's can be compared where their sizes differ or each
/// pair of elements can be compared.
pub proof fn law_tuples_can_be_compared(a: Term, b: Term, process: &Process)
    requires
        a.tagged % 4 == 0b10,
        4 < a.tagged,
        process@.words[a.tagged as int / 4 - 1].tagged % 64 == 0,
        a.tagged as int / 4 + process@.words[a.tagged as int / 4 - 1].tagged as int / 64
            <= process@.words.len(),
        b.tagged % 4 == 0b10,
        4 < b.tagged,
        process@.words[b.tagged as int / 4 - 1].tagged % 64 == 0,
        b.tagged as int / 4 + process@.words[b.tagged as int / 4 - 1].tagged as int / 64
            <= process@.words.len(),
        process@.words[a.tagged as int / 4 - 1].tagged
            == process@.words[b.tagged as int / 4 - 1].tagged ==> forall|i: int, j: int|
            0 <= i - a.tagged as int / 4 < process@.words[a.tagged as int / 4 - 1].tagged as int
                / 64 && i - a.tagged as int / 4 == j - b.tagged as int / 4 ==> comparable(
                process@,
                #[trigger] process@.words[i],
                #[trigger] process@.words[j],
            ),
    ensures
        comparable(process@, a, b),
        call_requires(Term::eq, (&a, &b, process)),
        call_requires(Term::ne, (&a, &b, process)),
{
    if process@.arity(a) != process@.arity(b) {
        law_tuples_of_different_sizes_differ(process@, a, b);
    } else {
        law_comparable_tuples(process@, a, b);
        assert forall|i: int| 0 <= i < process@.arity(a) implies comparable(
            process@,
            #[trigger] process@.element(a, i),
            process@.element(b, i),
        ) by {
            lemma_element(process@, a, i);
            lemma_element(process@, b, i);
        }
    }
}

} // verus!
