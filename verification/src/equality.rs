//! What it means for terms to be the same value, to be comparable, and to be values at all. Lists and
//! tuples are compared element by element.

use vstd::prelude::*;

use crate::list::{cell, is_cell};
use crate::process::ProcessView;
use crate::tag::Tag;
use crate::term::Term;

verus! {

/// Whether the two terms are both lists that are not empty.
pub open spec fn both_lists(a: Term, b: Term) -> bool {
    a.has_tag(Tag::List) && b.has_tag(Tag::List)
}

/// Whether the two terms are both boxed.
pub open spec fn both_boxed(a: Term, b: Term) -> bool {
    a.has_tag(Tag::Boxed) && b.has_tag(Tag::Boxed)
}

/// Whether the two terms are the same value, where no list or tuple that has to be looked into is
/// nested deeper than `depth`. A list's tail counts as nested in it.
pub open spec fn same_within(process: ProcessView, a: Term, b: Term, depth: nat) -> bool
    decreases depth,
{
    if both_lists(a, b) {
        let (a_cell, b_cell) = (cell(process.conses, a), cell(process.conses, b));
        &&& depth > 0
        &&& same_within(process, a_cell.head, b_cell.head, (depth - 1) as nat)
        &&& same_within(process, a_cell.tail, b_cell.tail, (depth - 1) as nat)
    } else if both_boxed(a, b) {
        &&& depth > 0
        &&& process.arity(a) == process.arity(b)
        &&& forall|i: int|
            0 <= i < process.arity(a) ==> same_within(
                process,
                #[trigger] process.element(a, i),
                process.element(b, i),
                (depth - 1) as nat,
            )
    } else {
        a == b
    }
}

/// Whether the first `count` elements of the tuples are pairwise the same within `depth`.
pub open spec fn same_elements_within(
    process: ProcessView,
    a: Term,
    b: Term,
    count: int,
    depth: nat,
) -> bool {
    forall|i: int|
        0 <= i < count ==> same_within(
            process,
            #[trigger] process.element(a, i),
            process.element(b, i),
            depth,
        )
}

/// Whether the two terms are the same value: two lists with the same head and the same tail, two
/// tuples of the same size with pairwise the same elements, or else the same word.
pub open spec fn same_value(process: ProcessView, a: Term, b: Term) -> bool {
    if both_lists(a, b) || both_boxed(a, b) {
        exists|depth: nat| same_within(process, a, b, depth)
    } else {
        a == b
    }
}

/// Whether the first `count` elements of the tuples are pairwise the same.
pub open spec fn same_elements(process: ProcessView, a: Term, b: Term, count: int) -> bool {
    forall|i: int|
        0 <= i < count ==> same_value(
            process,
            #[trigger] process.element(a, i),
            process.element(b, i),
        )
}

/// Whether the term is an atom, the empty list or a small integer.
pub open spec fn is_immediate(term: Term) -> bool {
    term.has_tag(Tag::Atom) || term.has_tag(Tag::EmptyList) || term.has_tag(Tag::SmallInteger)
}

/// Whether `term` is boxed and known to be no number: what it stands for is the header of something
/// other than a float or a big number.
pub open spec fn holds_no_number(process: ProcessView, term: Term) -> bool {
    let header = process.boxed(term);
    &&& process.is_box(term)
    &&& header.well_tagged()
    &&& header.tagged % 4 == 0b00
    &&& !header.has_tag(Tag::Float)
    &&& !header.has_tag(Tag::PositiveBigNumber)
    &&& !header.has_tag(Tag::NegativeBigNumber)
}

/// Whether two terms that are not both lists and not both boxed can be compared: one of them is an
/// atom, the empty list or a small integer, or they carry different tags. A small integer and a
/// boxed term are left out unless the box is known to hold no number, since numbers of different
/// types are compared by value (the integer one is the same as the float one), which their words
/// do not tell.
pub open spec fn words_comparable(process: ProcessView, a: Term, b: Term) -> bool {
    &&& is_immediate(a) || is_immediate(b) || forall|tag: Tag| !(a.has_tag(tag) && b.has_tag(tag))
    &&& a.has_tag(Tag::SmallInteger) && b.has_tag(Tag::Boxed) ==> holds_no_number(process, b)
    &&& a.has_tag(Tag::Boxed) && b.has_tag(Tag::SmallInteger) ==> holds_no_number(process, a)
}

/// Whether the two terms can be compared without looking into any list or tuple that is nested
/// deeper than `depth`. What lies behind the first difference does not matter.
pub open spec fn comparable_within(process: ProcessView, a: Term, b: Term, depth: nat) -> bool
    decreases depth,
{
    &&& a.well_tagged()
    &&& b.well_tagged()
    &&& if both_lists(a, b) {
        let (a_cell, b_cell) = (cell(process.conses, a), cell(process.conses, b));
        &&& depth > 0
        &&& is_cell(process.conses, a)
        &&& is_cell(process.conses, b)
        &&& comparable_within(process, a_cell.head, b_cell.head, (depth - 1) as nat)
        &&& same_within(process, a_cell.head, b_cell.head, (depth - 1) as nat)
            ==> comparable_within(process, a_cell.tail, b_cell.tail, (depth - 1) as nat)
    } else if both_boxed(a, b) {
        &&& depth > 0
        &&& process.is_tuple(a)
        &&& process.is_tuple(b)
        &&& process.arity(a) == process.arity(b) ==> forall|i: int|
            0 <= i < process.arity(a) && same_elements_within(
                process,
                a,
                b,
                i,
                (depth - 1) as nat,
            ) ==> comparable_within(
                process,
                #[trigger] process.element(a, i),
                process.element(b, i),
                (depth - 1) as nat,
            )
    } else {
        words_comparable(process, a, b)
    }
}

/// Whether the two terms can be compared. Terms with different tags can, but for a small integer
/// and a boxed term that may be a number of another type; and so can two atoms, two empty lists
/// and two small integers. Two lists can where their heads can and, if those are the
/// same, their tails can; and two tuples where their sizes differ or each pair of elements up to
/// the first difference can.
pub open spec fn comparable(process: ProcessView, a: Term, b: Term) -> bool {
    if both_lists(a, b) || both_boxed(a, b) {
        exists|depth: nat| comparable_within(process, a, b, depth)
    } else {
        a.well_tagged() && b.well_tagged() && words_comparable(process, a, b)
    }
}

/// Terms are the same where they are the same within some depth.
pub broadcast proof fn lemma_same_at_some_depth(process: ProcessView, a: Term, b: Term)
    ensures
        #[trigger] same_value(process, a, b) <==> exists|depth: nat|
            same_within(process, a, b, depth),
{
    if !both_lists(a, b) && !both_boxed(a, b) && a == b {
        assert(same_within(process, a, b, 0));
    }
}

/// Terms can be compared where they can within some depth.
pub broadcast proof fn lemma_comparable_at_some_depth(process: ProcessView, a: Term, b: Term)
    ensures
        #[trigger] comparable(process, a, b) <==> exists|depth: nat|
            comparable_within(process, a, b, depth),
{
    if !both_lists(a, b) && !both_boxed(a, b) && a.well_tagged() && b.well_tagged()
        && words_comparable(process, a, b) {
        assert(comparable_within(process, a, b, 0));
    }
}

/// Whether the term is built of atoms, empty lists and small integers by lists and tuples that are
/// nested no deeper than `depth`. A list's tail counts as nested in it.
pub open spec fn is_value_within(process: ProcessView, term: Term, depth: nat) -> bool
    decreases depth,
{
    if term.has_tag(Tag::List) {
        &&& depth > 0
        &&& is_cell(process.conses, term)
        &&& is_value_within(process, cell(process.conses, term).head, (depth - 1) as nat)
        &&& is_value_within(process, cell(process.conses, term).tail, (depth - 1) as nat)
    } else if term.has_tag(Tag::Boxed) {
        &&& depth > 0
        &&& process.is_tuple(term)
        &&& forall|i: int|
            0 <= i < process.arity(term) ==> is_value_within(
                process,
                #[trigger] process.element(term, i),
                (depth - 1) as nat,
            )
    } else {
        is_immediate(term)
    }
}

/// Whether the term is built of atoms, empty lists and small integers by lists and tuples.
pub open spec fn is_value(process: ProcessView, term: Term) -> bool {
    if term.has_tag(Tag::List) || term.has_tag(Tag::Boxed) {
        exists|depth: nat| is_value_within(process, term, depth)
    } else {
        is_immediate(term)
    }
}

/// A term is a value where it is one within some depth.
pub broadcast proof fn lemma_value_at_some_depth(process: ProcessView, term: Term)
    ensures
        #[trigger] is_value(process, term) <==> exists|depth: nat|
            is_value_within(process, term, depth),
{
    if !term.has_tag(Tag::List) && !term.has_tag(Tag::Boxed) && is_immediate(term) {
        assert(is_value_within(process, term, 0));
    }
}

} // verus!
