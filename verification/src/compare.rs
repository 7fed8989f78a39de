//! Comparing terms by value.

use vstd::prelude::*;

use crate::encoding::{empty_list_term, law_atom_of_term, law_integer_of_term};
use crate::equality::{
    both_boxed, both_lists, comparable, comparable_within, lemma_comparable_at_some_depth,
    lemma_same_at_some_depth, same_elements, same_elements_within, same_value, same_within,
    words_comparable,
};
use crate::list::{cell, is_cell, Cons};
use crate::process::{Process, ProcessView};
use crate::tag::{law_untagged_words, Tag};
use crate::term::Term;

verus! {

broadcast use {lemma_same_at_some_depth, lemma_comparable_at_some_depth};

/// What is the same within a depth is the same within any greater depth.
proof fn lemma_same_is_monotone(process: ProcessView, a: Term, b: Term, depth: nat, more: nat)
    requires
        same_within(process, a, b, depth),
        depth <= more,
    ensures
        same_within(process, a, b, more),
    decreases depth,
{
    if both_lists(a, b) {
        let (a_cell, b_cell) = (cell(process.conses, a), cell(process.conses, b));
        lemma_same_is_monotone(
            process,
            a_cell.head,
            b_cell.head,
            (depth - 1) as nat,
            (more - 1) as nat,
        );
        lemma_same_is_monotone(
            process,
            a_cell.tail,
            b_cell.tail,
            (depth - 1) as nat,
            (more - 1) as nat,
        );
    } else if both_boxed(a, b) {
        assert forall|i: int| 0 <= i < process.arity(a) implies same_within(
            process,
            #[trigger] process.element(a, i),
            process.element(b, i),
            (more - 1) as nat,
        ) by {
            lemma_same_is_monotone(
                process,
                process.element(a, i),
                process.element(b, i),
                (depth - 1) as nat,
                (more - 1) as nat,
            );
        }
    }
}

/// What can be compared within a depth can be compared within any greater depth, with the same
/// outcome.
proof fn lemma_outcome_is_stable(process: ProcessView, a: Term, b: Term, depth: nat, more: nat)
    requires
        comparable_within(process, a, b, depth),
        depth <= more,
    ensures
        comparable_within(process, a, b, more),
        same_within(process, a, b, more) == same_within(process, a, b, depth),
    decreases depth, 1int, 0int,
{
    if both_lists(a, b) {
        let (a_cell, b_cell) = (cell(process.conses, a), cell(process.conses, b));
        let (less, rest) = ((depth - 1) as nat, (more - 1) as nat);
        lemma_outcome_is_stable(process, a_cell.head, b_cell.head, less, rest);
        if same_within(process, a_cell.head, b_cell.head, less) {
            lemma_outcome_is_stable(process, a_cell.tail, b_cell.tail, less, rest);
        }
    } else if both_boxed(a, b) {
        let (less, rest) = ((depth - 1) as nat, (more - 1) as nat);
        if process.arity(a) == process.arity(b) {
            assert forall|i: int|
                0 <= i < process.arity(a) && same_elements_within(process, a, b, i, rest)
                implies comparable_within(
                process,
                #[trigger] process.element(a, i),
                process.element(b, i),
                rest,
            ) by {
                lemma_elements_are_stable(process, a, b, i, depth, more);
                lemma_outcome_is_stable(
                    process,
                    process.element(a, i),
                    process.element(b, i),
                    less,
                    rest,
                );
            }
            lemma_elements_are_stable(process, a, b, process.arity(a), depth, more);
            assert(same_within(process, a, b, depth) == same_elements_within(
                process,
                a,
                b,
                process.arity(a),
                less,
            ));
            assert(same_within(process, a, b, more) == same_elements_within(
                process,
                a,
                b,
                process.arity(a),
                rest,
            ));
        }
    }
}

/// Of tuples that can be compared, the first `count` elements compare alike within a greater depth.
proof fn lemma_elements_are_stable(
    process: ProcessView,
    a: Term,
    b: Term,
    count: int,
    depth: nat,
    more: nat,
)
    requires
        both_boxed(a, b),
        comparable_within(process, a, b, depth),
        process.arity(a) == process.arity(b),
        0 <= count <= process.arity(a),
        depth <= more,
    ensures
        same_elements_within(process, a, b, count, (depth - 1) as nat) == same_elements_within(
            process,
            a,
            b,
            count,
            (more - 1) as nat,
        ),
    decreases depth, 0int, count,
{
    let (less, rest) = ((depth - 1) as nat, (more - 1) as nat);
    if count > 0 {
        let last = count - 1;
        lemma_elements_are_stable(process, a, b, last, depth, more);
        if same_elements_within(process, a, b, last, less) {
            lemma_outcome_is_stable(
                process,
                process.element(a, last),
                process.element(b, last),
                less,
                rest,
            );
        }
        lemma_one_more_element(process, a, b, count, less);
        lemma_one_more_element(process, a, b, count, rest);
    }
}

/// The first `count` elements are the same where all but the last of them are, and the last is.
proof fn lemma_one_more_element(process: ProcessView, a: Term, b: Term, count: int, depth: nat)
    requires
        count > 0,
    ensures
        same_elements_within(process, a, b, count, depth) <==> same_elements_within(
            process,
            a,
            b,
            count - 1,
            depth,
        ) && same_within(
            process,
            process.element(a, count - 1),
            process.element(b, count - 1),
            depth,
        ),
{
}

/// Where two terms can be compared within `depth`, they are the same exactly if they are the same
/// within `depth`.
proof fn lemma_outcome(process: ProcessView, a: Term, b: Term, depth: nat)
    requires
        comparable_within(process, a, b, depth),
    ensures
        same_value(process, a, b) == same_within(process, a, b, depth),
{
    if same_value(process, a, b) {
        let enough = choose|enough: nat| same_within(process, a, b, enough);
        let more = if enough < depth {
            depth
        } else {
            enough
        };
        lemma_same_is_monotone(process, a, b, enough, more);
        lemma_outcome_is_stable(process, a, b, depth, more);
    }
}

impl Term {
    /// Whether the two terms are the same value: lists and tuples are compared element by element,
    /// tuples by their size first. Boxed numbers are left out.
    pub fn eq(&self, other: &Term, process: &Process) -> (same: bool)
        requires
            comparable(process@, *self, *other),
        ensures
            same == same_value(process@, *self, *other),
    {
        let ghost depth = choose|depth: nat| comparable_within(process@, *self, *other, depth);
        proof {
            lemma_outcome(process@, *self, *other, depth);
        }
        self.eq_within(other, process, Ghost(depth))
    }

    /// Whether the two terms are different values.
    pub fn ne(&self, other: &Term, process: &Process) -> (differ: bool)
        requires
            comparable(process@, *self, *other),
        ensures
            differ == !same_value(process@, *self, *other),
    {
        !self.eq(other, process)
    }

    /// Whether the two terms are the same value, where nothing is nested deeper than `depth`.
    fn eq_within(&self, other: &Term, process: &Process, Ghost(depth): Ghost<nat>) -> (same: bool)
        requires
            comparable_within(process@, *self, *other, depth),
        ensures
            same == same_within(process@, *self, *other, depth),
        decreases depth, 1int,
    {
        let mut a = *self;
        let mut b = *other;
        let ghost mut rest = depth;
        loop
            invariant
                comparable_within(process@, a, b, rest),
                same_within(process@, a, b, rest) == same_within(process@, *self, *other, depth),
                rest <= depth,
            decreases rest,
        {
            let tag = a.tag();
            let other_tag = b.tag();
            assert(a.has_tag(tag) && b.has_tag(other_tag));
            if tag != other_tag {
                return false;
            }
            match tag {
                Tag::Atom | Tag::EmptyList | Tag::SmallInteger => {
                    return a.tagged == b.tagged;
                },
                Tag::List => {
                    let a_cons = Cons::from(a, process);
                    let b_cons = Cons::from(b, process);
                    proof {
                        rest = (rest - 1) as nat;
                    }
                    if !a_cons.head().eq_within(&b_cons.head(), process, Ghost(rest)) {
                        return false;
                    }
                    a = a_cons.tail();
                    b = b_cons.tail();
                },
                Tag::Boxed => {
                    return a.tuple_eq_within(&b, process, Ghost(rest));
                },
                _ => {
                    return vstd::pervasive::unreached();
                },
            }
        }
    }

    /// Whether the two tuples have the same size and pairwise the same elements, where nothing is
    /// nested deeper than `depth`.
    fn tuple_eq_within(&self, other: &Term, process: &Process, Ghost(depth): Ghost<nat>) -> (same:
        bool)
        requires
            both_boxed(*self, *other),
            comparable_within(process@, *self, *other, depth),
        ensures
            same == same_within(process@, *self, *other, depth),
        decreases depth, 0int,
    {
        let arity = self.unbox(process).to_usize();
        if arity != other.unbox(process).to_usize() {
            return false;
        }
        let ghost less = (depth - 1) as nat;
        let a_header = self.boxed_address();
        let b_header = other.boxed_address();
        let mut next: usize = 0;
        while next < arity
            invariant
                next <= arity,
                arity == process@.arity(*self),
                arity == process@.arity(*other),
                a_header == self.address(),
                b_header == other.address(),
                both_boxed(*self, *other),
                comparable_within(process@, *self, *other, depth),
                less == depth - 1,
                same_elements_within(process@, *self, *other, next as int, less),
            decreases arity - next,
        {
            let a_element = process.word_behind(a_header, next + 1);
            let b_element = process.word_behind(b_header, next + 1);
            assert(*a_element == process@.element(*self, next as int));
            assert(*b_element == process@.element(*other, next as int));
            if !a_element.eq_within(b_element, process, Ghost(less)) {
                return false;
            }
            next = next + 1;
        }
        true
    }
}

/// The greater of two depths.
spec fn deeper(a: nat, b: nat) -> nat {
    if a < b {
        b
    } else {
        a
    }
}

/// Two lists are the same where their heads are and their tails are.
pub proof fn law_equality_of_lists(process: ProcessView, a: Term, b: Term)
    requires
        both_lists(a, b),
    ensures
        same_value(process, a, b) <==> same_value(
            process,
            cell(process.conses, a).head,
            cell(process.conses, b).head,
        ) && same_value(process, cell(process.conses, a).tail, cell(process.conses, b).tail),
{
    let (a_cell, b_cell) = (cell(process.conses, a), cell(process.conses, b));
    if same_value(process, a, b) {
        let depth = choose|depth: nat| same_within(process, a, b, depth);
        assert(same_within(process, a_cell.head, b_cell.head, (depth - 1) as nat));
        assert(same_within(process, a_cell.tail, b_cell.tail, (depth - 1) as nat));
    }
    if same_value(process, a_cell.head, b_cell.head) && same_value(
        process,
        a_cell.tail,
        b_cell.tail,
    ) {
        let heads = choose|heads: nat| same_within(process, a_cell.head, b_cell.head, heads);
        let tails = choose|tails: nat| same_within(process, a_cell.tail, b_cell.tail, tails);
        let both = deeper(heads, tails);
        lemma_same_is_monotone(process, a_cell.head, b_cell.head, heads, both);
        lemma_same_is_monotone(process, a_cell.tail, b_cell.tail, tails, both);
        assert(same_within(process, a, b, both + 1));
    }
}

/// Two tuples are the same where they have the same size and pairwise the same elements.
pub proof fn law_equality_of_tuples(process: ProcessView, a: Term, b: Term)
    requires
        both_boxed(a, b),
    ensures
        same_value(process, a, b) <==> {
            &&& process.arity(a) == process.arity(b)
            &&& forall|i: int|
                0 <= i < process.arity(a) ==> same_value(
                    process,
                    #[trigger] process.element(a, i),
                    process.element(b, i),
                )
        },
{
    if same_value(process, a, b) {
        let depth = choose|depth: nat| same_within(process, a, b, depth);
        assert forall|i: int| 0 <= i < process.arity(a) implies same_value(
            process,
            #[trigger] process.element(a, i),
            process.element(b, i),
        ) by {
            assert(same_within(
                process,
                process.element(a, i),
                process.element(b, i),
                (depth - 1) as nat,
            ));
        }
    }
    if process.arity(a) == process.arity(b) && forall|i: int|
        0 <= i < process.arity(a) ==> same_value(
            process,
            #[trigger] process.element(a, i),
            process.element(b, i),
        ) {
        let depth = lemma_common_depth(process, a, b, process.arity(a));
        assert(same_within(process, a, b, depth + 1));
    }
}

/// A depth within which the first `count` elements of two tuples are pairwise the same.
proof fn lemma_common_depth(process: ProcessView, a: Term, b: Term, count: int) -> (depth: nat)
    requires
        forall|i: int|
            0 <= i < count ==> same_value(
                process,
                #[trigger] process.element(a, i),
                process.element(b, i),
            ),
    ensures
        same_elements_within(process, a, b, count, depth),
    decreases count,
{
    if count <= 0 {
        0
    } else {
        let last = count - 1;
        let before = lemma_common_depth(process, a, b, last);
        let at_last = choose|depth: nat|
            same_within(process, process.element(a, last), process.element(b, last), depth);
        let depth = deeper(before, at_last);
        assert(same_value(process, process.element(a, last), process.element(b, last)));
        assert forall|i: int| 0 <= i < count implies same_within(
            process,
            #[trigger] process.element(a, i),
            process.element(b, i),
            depth,
        ) by {
            lemma_same_is_monotone(
                process,
                process.element(a, i),
                process.element(b, i),
                if i < last {
                    before
                } else {
                    at_last
                },
                depth,
            );
        }
        depth
    }
}

/// Terms that are not both lists and not both boxed are the same where they are the same word.
pub proof fn law_equality_of_words(process: ProcessView, a: Term, b: Term)
    requires
        !both_lists(a, b),
        !both_boxed(a, b),
    ensures
        same_value(process, a, b) <==> a == b,
{
    if a == b {
        assert(same_within(process, a, b, 0));
    }
}

/// Terms with different tags are different. A small integer and a boxed term that may be a number
/// of another type are left out: numbers of different types are compared by value.
pub proof fn law_different_tags_differ(process: ProcessView, a: Term, b: Term)
    requires
        forall|tag: Tag| !(a.has_tag(tag) && b.has_tag(tag)),
        a.well_tagged(),
        b.well_tagged(),
        words_comparable(process, a, b),
    ensures
        comparable(process, a, b),
        !same_value(process, a, b),
{
    assert(comparable_within(process, a, b, 0));
    law_equality_of_words(process, a, b);
    law_untagged_words(a.tagged);
    if a == b {
        let tag = choose|tag: Tag| tag.marks(a.tagged);
        assert(a.has_tag(tag) && b.has_tag(tag));
    }
}

/// Atoms are the same where their numbers are, and small integers where their integers are. The
/// empty list is the same as itself.
pub proof fn law_equality_of_immediates(process: ProcessView, a: Term, b: Term)
    ensures
        a.has_tag(Tag::Atom) && b.has_tag(Tag::Atom) ==> comparable(process, a, b) && (same_value(
            process,
            a,
            b,
        ) <==> a.payload() == b.payload()),
        a.has_tag(Tag::SmallInteger) && b.has_tag(Tag::SmallInteger) ==> comparable(process, a, b)
            && (same_value(process, a, b) <==> a.integer() == b.integer()),
        comparable(process, empty_list_term(), empty_list_term()),
        same_value(process, empty_list_term(), empty_list_term()),
{
    let empty = empty_list_term();
    lemma_immediates_comparable(process, empty, empty, Tag::EmptyList);
    law_equality_of_words(process, empty, empty);
    if a.has_tag(Tag::Atom) && b.has_tag(Tag::Atom) {
        lemma_immediates_comparable(process, a, b, Tag::Atom);
        law_equality_of_words(process, a, b);
        law_atom_of_term(a);
        law_atom_of_term(b);
    }
    if a.has_tag(Tag::SmallInteger) && b.has_tag(Tag::SmallInteger) {
        lemma_immediates_comparable(process, a, b, Tag::SmallInteger);
        law_equality_of_words(process, a, b);
        law_integer_of_term(a);
        law_integer_of_term(b);
    }
}

/// Two atoms, two empty lists or two small integers can be compared.
proof fn lemma_immediates_comparable(process: ProcessView, a: Term, b: Term, tag: Tag)
    requires
        tag is Atom || tag is EmptyList || tag is SmallInteger,
        a.has_tag(tag),
        b.has_tag(tag),
    ensures
        comparable(process, a, b),
        !both_lists(a, b),
        !both_boxed(a, b),
{
    law_untagged_words(a.tagged);
    law_untagged_words(b.tagged);
}

/// Two lists can be compared where their heads can and, if those are the same, their tails can.
pub proof fn law_comparable_lists(process: ProcessView, a: Term, b: Term)
    requires
        is_cell(process.conses, a),
        is_cell(process.conses, b),
    ensures
        ({
            let (a_cell, b_cell) = (cell(process.conses, a), cell(process.conses, b));
            comparable(process, a, b) <==> {
                &&& comparable(process, a_cell.head, b_cell.head)
                &&& same_value(process, a_cell.head, b_cell.head) ==> comparable(
                    process,
                    a_cell.tail,
                    b_cell.tail,
                )
            }
        }),
{
    let (a_cell, b_cell) = (cell(process.conses, a), cell(process.conses, b));
    law_untagged_words(a.tagged);
    law_untagged_words(b.tagged);
    if comparable(process, a, b) {
        let depth = choose|depth: nat| comparable_within(process, a, b, depth);
        let less = (depth - 1) as nat;
        assert(comparable_within(process, a_cell.head, b_cell.head, less));
        lemma_outcome(process, a_cell.head, b_cell.head, less);
        if same_value(process, a_cell.head, b_cell.head) {
            assert(comparable_within(process, a_cell.tail, b_cell.tail, less));
        }
    }
    if comparable(process, a_cell.head, b_cell.head) && (same_value(
        process,
        a_cell.head,
        b_cell.head,
    ) ==> comparable(process, a_cell.tail, b_cell.tail)) {
        let heads = choose|heads: nat| comparable_within(process, a_cell.head, b_cell.head, heads);
        let tails = choose|tails: nat| comparable_within(process, a_cell.tail, b_cell.tail, tails);
        let both = deeper(heads, tails);
        lemma_outcome_is_stable(process, a_cell.head, b_cell.head, heads, both);
        lemma_outcome(process, a_cell.head, b_cell.head, both);
        if same_value(process, a_cell.head, b_cell.head) {
            lemma_outcome_is_stable(process, a_cell.tail, b_cell.tail, tails, both);
        }
        assert(comparable_within(process, a, b, both + 1));
    }
}

/// Two tuples of different sizes can be compared, and differ.
pub proof fn law_tuples_of_different_sizes_differ(process: ProcessView, a: Term, b: Term)
    requires
        process.is_tuple(a),
        process.is_tuple(b),
        process.arity(a) != process.arity(b),
    ensures
        comparable(process, a, b),
        !same_value(process, a, b),
{
    law_untagged_words(a.tagged);
    law_untagged_words(b.tagged);
    assert(comparable_within(process, a, b, 1));
    law_equality_of_tuples(process, a, b);
}

/// Two tuples of the same size can be compared where each pair of elements can that has none but
/// same elements before it.
pub proof fn law_comparable_tuples(process: ProcessView, a: Term, b: Term)
    requires
        process.is_tuple(a),
        process.is_tuple(b),
        process.arity(a) == process.arity(b),
    ensures
        comparable(process, a, b) <==> forall|i: int|
            0 <= i < process.arity(a) && same_elements(process, a, b, i) ==> comparable(
                process,
                #[trigger] process.element(a, i),
                process.element(b, i),
            ),
{
    law_untagged_words(a.tagged);
    law_untagged_words(b.tagged);
    if comparable(process, a, b) {
        let depth = choose|depth: nat| comparable_within(process, a, b, depth);
        assert forall|i: int|
            0 <= i < process.arity(a) && same_elements(process, a, b, i) implies comparable(
            process,
            #[trigger] process.element(a, i),
            process.element(b, i),
        ) by {
            let enough = lemma_common_depth(process, a, b, i);
            let more = deeper(enough, depth);
            assert forall|j: int| 0 <= j < i implies same_within(
                process,
                #[trigger] process.element(a, j),
                process.element(b, j),
                more,
            ) by {
                lemma_same_is_monotone(
                    process,
                    process.element(a, j),
                    process.element(b, j),
                    enough,
                    more,
                );
            }
            lemma_elements_are_stable(process, a, b, i, depth, more + 1);
            assert(comparable_within(
                process,
                process.element(a, i),
                process.element(b, i),
                (depth - 1) as nat,
            ));
        }
    }
    if forall|i: int|
        0 <= i < process.arity(a) && same_elements(process, a, b, i) ==> comparable(
            process,
            #[trigger] process.element(a, i),
            process.element(b, i),
        ) {
        let depth = lemma_common_comparable_depth(process, a, b, process.arity(a));
        assert forall|i: int|
            0 <= i < process.arity(a) && same_elements_within(process, a, b, i, depth)
            implies comparable_within(
            process,
            #[trigger] process.element(a, i),
            process.element(b, i),
            depth,
        ) by {
            assert(same_elements(process, a, b, i));
        }
        assert(comparable_within(process, a, b, depth + 1));
    }
}

/// A depth within which the first `count` elements of two tuples can be compared as far as they
/// have none but same elements before them.
proof fn lemma_common_comparable_depth(process: ProcessView, a: Term, b: Term, count: int) -> (depth:
    nat)
    requires
        forall|i: int|
            0 <= i < count && same_elements(process, a, b, i) ==> comparable(
                process,
                #[trigger] process.element(a, i),
                process.element(b, i),
            ),
    ensures
        forall|i: int|
            0 <= i < count && same_elements(process, a, b, i) ==> comparable_within(
                process,
                #[trigger] process.element(a, i),
                process.element(b, i),
                depth,
            ),
    decreases count,
{
    if count <= 0 {
        0
    } else {
        let last = count - 1;
        let before = lemma_common_comparable_depth(process, a, b, last);
        let at_last = choose|depth: nat|
            comparable_within(process, process.element(a, last), process.element(b, last), depth);
        let depth = deeper(before, at_last);
        assert forall|i: int| 0 <= i < count && same_elements(process, a, b, i) implies
            comparable_within(
            process,
            #[trigger] process.element(a, i),
            process.element(b, i),
            depth,
        ) by {
            assert(comparable(process, process.element(a, i), process.element(b, i)));
            lemma_outcome_is_stable(
                process,
                process.element(a, i),
                process.element(b, i),
                if i < last {
                    before
                } else {
                    at_last
                },
                depth,
            );
        }
        depth
    }
}

} // verus!
