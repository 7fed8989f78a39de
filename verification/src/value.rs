//! Values: the terms that are built of atoms, empty lists and small integers by lists and tuples.
//! Any two of them can be compared.

use vstd::prelude::*;

use crate::arena::{address_at, has_room, index_at};
use crate::compare::{
    law_comparable_lists, law_comparable_tuples, law_equality_of_lists, law_equality_of_tuples,
};
use crate::encoding::{arity_term, boxed_term, law_arity_round_trip, list_term};
use crate::equality::{
    both_boxed, both_lists, comparable, comparable_within, is_immediate, is_value, is_value_within,
    lemma_comparable_at_some_depth, lemma_same_at_some_depth, lemma_value_at_some_depth,
    same_value, same_within,
};
use crate::laws::{law_list_gives_back, law_operations_only_add, law_tuple_gives_back};
use crate::list::{cell, is_cell};
use crate::process::ProcessView;
use crate::tag::{law_untagged_words, Tag};
use crate::term::Term;

verus! {

broadcast use {
    lemma_comparable_at_some_depth,
    lemma_same_at_some_depth,
    lemma_value_at_some_depth,
};

/// A value within a depth is one within any greater depth.
proof fn lemma_values_are_monotone(process: ProcessView, term: Term, depth: nat, more: nat)
    requires
        is_value_within(process, term, depth),
        depth <= more,
    ensures
        is_value_within(process, term, more),
    decreases depth,
{
    let (less, rest) = ((depth - 1) as nat, (more - 1) as nat);
    if term.has_tag(Tag::List) {
        lemma_values_are_monotone(process, cell(process.conses, term).head, less, rest);
        lemma_values_are_monotone(process, cell(process.conses, term).tail, less, rest);
    } else if term.has_tag(Tag::Boxed) {
        assert forall|i: int| 0 <= i < process.arity(term) implies is_value_within(
            process,
            #[trigger] process.element(term, i),
            rest,
        ) by {
            lemma_values_are_monotone(process, process.element(term, i), less, rest);
        }
    }
}

/// Any two values within a depth can be compared within it.
proof fn lemma_values_are_comparable(process: ProcessView, a: Term, b: Term, depth: nat)
    requires
        is_value_within(process, a, depth),
        is_value_within(process, b, depth),
    ensures
        comparable_within(process, a, b, depth),
    decreases depth,
{
    law_untagged_words(a.tagged);
    law_untagged_words(b.tagged);
    let less = (depth - 1) as nat;
    if both_lists(a, b) {
        let (a_cell, b_cell) = (cell(process.conses, a), cell(process.conses, b));
        lemma_values_are_comparable(process, a_cell.head, b_cell.head, less);
        lemma_values_are_comparable(process, a_cell.tail, b_cell.tail, less);
    } else if both_boxed(a, b) {
        if process.arity(a) == process.arity(b) {
            assert forall|i: int| 0 <= i < process.arity(a) implies comparable_within(
                process,
                #[trigger] process.element(a, i),
                process.element(b, i),
                less,
            ) by {
                assert(is_value_within(process, process.element(b, i), less));
                lemma_values_are_comparable(
                    process,
                    process.element(a, i),
                    process.element(b, i),
                    less,
                );
            }
        }
    }
}

/// Any two values can be compared.
pub proof fn law_values_are_comparable(process: ProcessView, a: Term, b: Term)
    requires
        is_value(process, a),
        is_value(process, b),
    ensures
        comparable(process, a, b),
{
    let a_depth = choose|depth: nat| is_value_within(process, a, depth);
    let b_depth = choose|depth: nat| is_value_within(process, b, depth);
    let depth = if a_depth < b_depth {
        b_depth
    } else {
        a_depth
    };
    lemma_values_are_monotone(process, a, a_depth, depth);
    lemma_values_are_monotone(process, b, b_depth, depth);
    lemma_values_are_comparable(process, a, b, depth);
}

/// Atoms, the empty list and small integers are values.
pub proof fn law_immediates_are_values(process: ProcessView, term: Term)
    requires
        is_immediate(term),
    ensures
        is_value(process, term),
{
    assert(is_value_within(process, term, 0));
}

/// A list is a value where its head and its tail are.
pub proof fn law_lists_of_values_are_values(process: ProcessView, term: Term)
    requires
        is_cell(process.conses, term),
        is_value(process, cell(process.conses, term).head),
        is_value(process, cell(process.conses, term).tail),
    ensures
        is_value(process, term),
{
    let (head, tail) = (cell(process.conses, term).head, cell(process.conses, term).tail);
    let heads = choose|depth: nat| is_value_within(process, head, depth);
    let tails = choose|depth: nat| is_value_within(process, tail, depth);
    let both = if heads < tails {
        tails
    } else {
        heads
    };
    lemma_values_are_monotone(process, head, heads, both);
    lemma_values_are_monotone(process, tail, tails, both);
    assert(is_value_within(process, term, both + 1));
}

/// A tuple is a value where its elements are.
pub proof fn law_tuples_of_values_are_values(process: ProcessView, term: Term)
    requires
        process.is_tuple(term),
        forall|i: int|
            0 <= i < process.arity(term) ==> is_value(process, #[trigger] process.element(term, i)),
    ensures
        is_value(process, term),
{
    let depth = lemma_common_depth(process, term, process.arity(term));
    assert(is_value_within(process, term, depth + 1));
}

/// A depth within which the first `count` elements of a tuple are values.
proof fn lemma_common_depth(process: ProcessView, term: Term, count: int) -> (depth: nat)
    requires
        forall|i: int|
            0 <= i < count ==> is_value(process, #[trigger] process.element(term, i)),
    ensures
        forall|i: int|
            0 <= i < count ==> is_value_within(process, #[trigger] process.element(term, i), depth),
    decreases count,
{
    if count <= 0 {
        0
    } else {
        let last = process.element(term, count - 1);
        let before = lemma_common_depth(process, term, count - 1);
        let at_last = choose|depth: nat| is_value_within(process, last, depth);
        let depth = if before < at_last {
            at_last
        } else {
            before
        };
        assert(is_value(process, last));
        assert forall|i: int| 0 <= i < count implies is_value_within(
            process,
            #[trigger] process.element(term, i),
            depth,
        ) by {
            lemma_values_are_monotone(
                process,
                process.element(term, i),
                if i < count - 1 {
                    before
                } else {
                    at_last
                },
                depth,
            );
        }
        depth
    }
}

/// A term that refers to a cell or a tuple of a process refers to the same in what the process
/// grows into.
proof fn lemma_references_outlive_growth(process: ProcessView, later: ProcessView, term: Term)
    requires
        process.grows_into(later),
    ensures
        is_cell(process.conses, term) ==> is_cell(later.conses, term) && cell(later.conses, term)
            == cell(process.conses, term),
        process.is_tuple(term) ==> {
            &&& later.is_tuple(term)
            &&& later.arity(term) == process.arity(term)
            &&& forall|i: int|
                0 <= i < process.arity(term) ==> #[trigger] later.element(term, i)
                    == process.element(term, i)
        },
{
}

/// A value stays one however much the process grows.
pub proof fn law_values_outlive_growth(process: ProcessView, later: ProcessView, term: Term)
    requires
        process.grows_into(later),
        is_value(process, term),
    ensures
        is_value(later, term),
{
    let depth = choose|depth: nat| is_value_within(process, term, depth);
    lemma_values_outlive_growth(process, later, term, depth);
}

/// A value within a depth stays one however much the process grows.
proof fn lemma_values_outlive_growth(
    process: ProcessView,
    later: ProcessView,
    term: Term,
    depth: nat,
)
    requires
        process.grows_into(later),
        is_value_within(process, term, depth),
    ensures
        is_value_within(later, term, depth),
    decreases depth,
{
    let less = (depth - 1) as nat;
    lemma_references_outlive_growth(process, later, term);
    if term.has_tag(Tag::List) {
        lemma_values_outlive_growth(process, later, cell(process.conses, term).head, less);
        lemma_values_outlive_growth(process, later, cell(process.conses, term).tail, less);
    } else if term.has_tag(Tag::Boxed) {
        assert forall|i: int| 0 <= i < later.arity(term) implies is_value_within(
            later,
            #[trigger] later.element(term, i),
            less,
        ) by {
            lemma_values_outlive_growth(process, later, process.element(term, i), less);
        }
    }
}

/// Two values compare alike however much the process grows.
pub proof fn law_equality_outlives_growth(
    process: ProcessView,
    later: ProcessView,
    a: Term,
    b: Term,
)
    requires
        process.grows_into(later),
        is_value(process, a),
        is_value(process, b),
    ensures
        same_value(later, a, b) == same_value(process, a, b),
{
    let a_depth = choose|depth: nat| is_value_within(process, a, depth);
    let b_depth = choose|depth: nat| is_value_within(process, b, depth);
    if same_value(process, a, b) {
        let depth = choose|depth: nat| same_within(process, a, b, depth);
        lemma_same_outlives_growth(process, later, a, a_depth, b, b_depth, depth);
    }
    if same_value(later, a, b) {
        let depth = choose|depth: nat| same_within(later, a, b, depth);
        lemma_same_outlives_growth(process, later, a, a_depth, b, b_depth, depth);
    }
}

/// Two values are the same within a depth however much the process grows.
proof fn lemma_same_outlives_growth(
    process: ProcessView,
    later: ProcessView,
    a: Term,
    a_depth: nat,
    b: Term,
    b_depth: nat,
    depth: nat,
)
    requires
        process.grows_into(later),
        is_value_within(process, a, a_depth),
        is_value_within(process, b, b_depth),
    ensures
        same_within(later, a, b, depth) == same_within(process, a, b, depth),
    decreases depth,
{
    lemma_references_outlive_growth(process, later, a);
    lemma_references_outlive_growth(process, later, b);
    if depth > 0 {
        let (a_less, b_less) = ((a_depth - 1) as nat, (b_depth - 1) as nat);
        let less = (depth - 1) as nat;
        if both_lists(a, b) {
            let (a_cell, b_cell) = (cell(process.conses, a), cell(process.conses, b));
            lemma_same_outlives_growth(
                process,
                later,
                a_cell.head,
                a_less,
                b_cell.head,
                b_less,
                less,
            );
            lemma_same_outlives_growth(
                process,
                later,
                a_cell.tail,
                a_less,
                b_cell.tail,
                b_less,
                less,
            );
        } else if both_boxed(a, b) && process.arity(a) == process.arity(b) {
            assert forall|i: int| 0 <= i < process.arity(a) implies same_within(
                later,
                #[trigger] later.element(a, i),
                later.element(b, i),
                less,
            ) == same_within(process, process.element(a, i), process.element(b, i), less) by {
                let (a_element, b_element) = (process.element(a, i), process.element(b, i));
                assert(later.element(b, i) == b_element);
                lemma_same_outlives_growth(
                    process,
                    later,
                    a_element,
                    a_less,
                    b_element,
                    b_less,
                    less,
                );
            }
            if same_within(later, a, b, depth) {
                assert forall|i: int| 0 <= i < process.arity(a) implies same_within(
                    process,
                    #[trigger] process.element(a, i),
                    process.element(b, i),
                    less,
                ) by {
                    assert(same_within(later, later.element(a, i), later.element(b, i), less));
                }
            }
        }
    }
}

/// Every value is the same as itself.
pub proof fn law_equality_is_reflexive(process: ProcessView, term: Term)
    requires
        is_value(process, term),
    ensures
        same_value(process, term, term),
{
    let depth = choose|depth: nat| is_value_within(process, term, depth);
    lemma_same_is_reflexive(process, term, depth);
}

/// Every value within a depth is the same as itself within it.
proof fn lemma_same_is_reflexive(process: ProcessView, term: Term, depth: nat)
    requires
        is_value_within(process, term, depth),
    ensures
        same_within(process, term, term, depth),
    decreases depth,
{
    let less = (depth - 1) as nat;
    if term.has_tag(Tag::List) {
        lemma_same_is_reflexive(process, cell(process.conses, term).head, less);
        lemma_same_is_reflexive(process, cell(process.conses, term).tail, less);
    } else if term.has_tag(Tag::Boxed) {
        assert forall|i: int| 0 <= i < process.arity(term) implies same_within(
            process,
            #[trigger] process.element(term, i),
            process.element(term, i),
            less,
        ) by {
            lemma_same_is_reflexive(process, process.element(term, i), less);
        }
    }
}

/// A term is the same as another where the other is the same as it.
pub proof fn law_equality_is_symmetric(process: ProcessView, a: Term, b: Term)
    ensures
        same_value(process, a, b) == same_value(process, b, a),
{
    if same_value(process, a, b) {
        let depth = choose|depth: nat| same_within(process, a, b, depth);
        lemma_same_is_symmetric(process, a, b, depth);
    }
    if same_value(process, b, a) {
        let depth = choose|depth: nat| same_within(process, b, a, depth);
        lemma_same_is_symmetric(process, b, a, depth);
    }
}

/// Sameness within a depth is symmetric.
proof fn lemma_same_is_symmetric(process: ProcessView, a: Term, b: Term, depth: nat)
    requires
        same_within(process, a, b, depth),
    ensures
        same_within(process, b, a, depth),
    decreases depth,
{
    let less = (depth - 1) as nat;
    if both_lists(a, b) {
        let (a_cell, b_cell) = (cell(process.conses, a), cell(process.conses, b));
        lemma_same_is_symmetric(process, a_cell.head, b_cell.head, less);
        lemma_same_is_symmetric(process, a_cell.tail, b_cell.tail, less);
    } else if both_boxed(a, b) {
        assert forall|i: int| 0 <= i < process.arity(b) implies same_within(
            process,
            #[trigger] process.element(b, i),
            process.element(a, i),
            less,
        ) by {
            lemma_same_is_symmetric(process, process.element(a, i), process.element(b, i), less);
        }
    }
}

/// Two terms that are the same as a third are the same.
pub proof fn law_equality_is_transitive(process: ProcessView, a: Term, b: Term, c: Term)
    requires
        same_value(process, a, b),
        same_value(process, b, c),
    ensures
        same_value(process, a, c),
{
    let depth = choose|depth: nat| same_within(process, a, b, depth);
    let other_depth = choose|depth: nat| same_within(process, b, c, depth);
    lemma_same_is_transitive(process, a, b, c, depth, other_depth);
}

/// Sameness is transitive, within the depth of the first pair.
proof fn lemma_same_is_transitive(
    process: ProcessView,
    a: Term,
    b: Term,
    c: Term,
    depth: nat,
    other_depth: nat,
)
    requires
        same_within(process, a, b, depth),
        same_within(process, b, c, other_depth),
    ensures
        same_within(process, a, c, depth),
    decreases depth,
{
    let (less, other_less) = ((depth - 1) as nat, (other_depth - 1) as nat);
    if both_lists(a, b) && both_lists(b, c) {
        let (a_cell, b_cell, c_cell) = (
            cell(process.conses, a),
            cell(process.conses, b),
            cell(process.conses, c),
        );
        lemma_same_is_transitive(process, a_cell.head, b_cell.head, c_cell.head, less, other_less);
        lemma_same_is_transitive(process, a_cell.tail, b_cell.tail, c_cell.tail, less, other_less);
    } else if both_boxed(a, b) && both_boxed(b, c) {
        assert forall|i: int| 0 <= i < process.arity(a) implies same_within(
            process,
            #[trigger] process.element(a, i),
            process.element(c, i),
            less,
        ) by {
            assert(same_within(process, process.element(b, i), process.element(c, i), other_less));
            lemma_same_is_transitive(
                process,
                process.element(a, i),
                process.element(b, i),
                process.element(c, i),
                less,
                other_less,
            );
        }
    }
}

/// A new list of values is a value.
pub proof fn law_cons_makes_a_value(process: ProcessView, head: Term, tail: Term)
    requires
        has_room(process.conses.len(), 1),
        is_value(process, head),
        is_value(process, tail),
    ensures
        is_value(
            process.with_cell(head, tail),
            list_term(address_at(process.conses.len() as int)),
        ),
{
    let after = process.with_cell(head, tail);
    law_operations_only_add(process, Seq::empty(), head, tail, Seq::empty());
    law_operations_only_add(after, Seq::empty(), head, tail, Seq::empty());
    law_list_gives_back(process, head, tail, after);
    law_values_outlive_growth(process, after, head);
    law_values_outlive_growth(process, after, tail);
    law_lists_of_values_are_values(after, list_term(address_at(process.conses.len() as int)));
}

/// A term that is a tuple with the elements `tuple` has as many elements, and those.
pub proof fn law_tuples_have_their_elements(process: ProcessView, term: Term, tuple: Seq<Term>)
    requires
        tuple.len() <= Term::MAX_ARITY,
        process.is_tuple_of(term, tuple),
    ensures
        process.is_tuple(term),
        process.arity(term) == tuple.len(),
        forall|i: int| 0 <= i < tuple.len() ==> #[trigger] process.element(term, i) == tuple[i],
{
    law_arity_round_trip(tuple.len() as int);
    let start = index_at(term.address());
    assert forall|i: int| 0 <= i < tuple.len() implies #[trigger] process.element(term, i)
        == tuple[i] by {
        assert(process.words.subrange(start + 1, start + 1 + tuple.len())[i] == tuple[i]);
    }
}

/// A new tuple of values is a value.
pub proof fn law_slice_to_tuple_makes_a_value(process: ProcessView, tuple: Seq<Term>)
    requires
        tuple.len() <= Term::MAX_ARITY,
        has_room(process.words.len(), tuple.len() + 1),
        forall|i: int| 0 <= i < tuple.len() ==> is_value(process, #[trigger] tuple[i]),
    ensures
        is_value(
            process.with_tuple(tuple),
            boxed_term(address_at(process.words.len() as int)),
        ),
{
    let after = process.with_tuple(tuple);
    let term = boxed_term(address_at(process.words.len() as int));
    let any = arity_term(0);
    law_operations_only_add(process, Seq::empty(), any, any, tuple);
    law_operations_only_add(after, Seq::empty(), any, any, tuple);
    law_tuple_gives_back(process, tuple, after);
    law_tuples_have_their_elements(after, term, tuple);
    assert forall|i: int| 0 <= i < after.arity(term) implies is_value(
        after,
        #[trigger] after.element(term, i),
    ) by {
        law_values_outlive_growth(process, after, tuple[i]);
    }
    law_tuples_of_values_are_values(after, term);
}

/// Lists of the same head and tail, which are values, are the same wherever they are.
pub proof fn law_lists_of_the_same_terms_are_the_same(process: ProcessView, a: Term, b: Term)
    requires
        is_cell(process.conses, a),
        is_cell(process.conses, b),
        cell(process.conses, a) == cell(process.conses, b),
        is_value(process, cell(process.conses, a).head),
        is_value(process, cell(process.conses, a).tail),
    ensures
        comparable(process, a, b),
        same_value(process, a, b),
{
    let (head, tail) = (cell(process.conses, a).head, cell(process.conses, a).tail);
    law_equality_is_reflexive(process, head);
    law_equality_is_reflexive(process, tail);
    law_values_are_comparable(process, head, head);
    law_values_are_comparable(process, tail, tail);
    law_comparable_lists(process, a, b);
    law_equality_of_lists(process, a, b);
}

/// Tuples of the same elements, which are values, are the same wherever they are.
pub proof fn law_tuples_of_the_same_terms_are_the_same(
    process: ProcessView,
    a: Term,
    b: Term,
    tuple: Seq<Term>,
)
    requires
        tuple.len() <= Term::MAX_ARITY,
        process.is_tuple_of(a, tuple),
        process.is_tuple_of(b, tuple),
        forall|i: int| 0 <= i < tuple.len() ==> is_value(process, #[trigger] tuple[i]),
    ensures
        comparable(process, a, b),
        same_value(process, a, b),
{
    law_tuples_have_their_elements(process, a, tuple);
    law_tuples_have_their_elements(process, b, tuple);
    assert forall|i: int| 0 <= i < process.arity(a) implies comparable(
        process,
        #[trigger] process.element(a, i),
        process.element(b, i),
    ) && same_value(process, process.element(a, i), process.element(b, i)) by {
        assert(process.element(b, i) == tuple[i]);
        law_values_are_comparable(process, tuple[i], tuple[i]);
        law_equality_is_reflexive(process, tuple[i]);
    }
    law_comparable_tuples(process, a, b);
    law_equality_of_tuples(process, a, b);
}

} // verus!
