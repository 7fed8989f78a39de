//! The cells that lists are made of.

use vstd::prelude::*;
use vstd::set_lib::{lemma_int_range, lemma_len_subset, set_int_range};

use crate::arena::{in_use, index_at};
use crate::process::Process;
use crate::tag::Tag;
use crate::term::Term;

verus! {

/// One cell of a list: an element, and the rest of the list.
#[derive(Clone, Copy, Debug)]
pub struct Cons {
    pub head: Term,
    pub tail: Term,
}

impl Cons {
    /// A cell with the given element and rest.
    pub fn new(head: Term, tail: Term) -> (cons: Cons)
        ensures
            cons == (Cons { head, tail }),
    {
        Cons { head, tail }
    }

    /// The first cell of the list `term`.
    pub fn from<'a>(term: Term, process: &'a Process) -> (cons: &'a Cons)
        requires
            in_use(term.tagged - term.tagged % 2, process@.conses.len()),
        ensures
            *cons == process@.conses[index_at(term.tagged - term.tagged % 2)],
            is_cell(process@.conses, term) ==> *cons == cell(process@.conses, term),
    {
        process.cell(term.cons_address())
    }

    /// The element.
    pub fn head(&self) -> (head: Term)
        ensures
            head == self.head,
    {
        self.head
    }

    /// The rest of the list.
    pub fn tail(&self) -> (tail: Term)
        ensures
            tail == self.tail,
    {
        self.tail
    }
}

/// Whether `term` is a list whose first cell is one of `conses`.
pub open spec fn is_cell(conses: Seq<Cons>, term: Term) -> bool {
    term.has_tag(Tag::List) && in_use(term.address(), conses.len())
}

/// The first cell of the list `term`.
pub open spec fn cell(conses: Seq<Cons>, term: Term) -> Cons
    recommends
        is_cell(conses, term),
{
    conses[index_at(term.address())]
}

/// What is left of the list `term` behind its first `count` cells.
pub open spec fn behind(conses: Seq<Cons>, term: Term, count: nat) -> Term
    decreases count,
{
    if count == 0 {
        term
    } else {
        behind(conses, cell(conses, term).tail, (count - 1) as nat)
    }
}

/// The elements in the first `count` cells of the list `term`.
pub open spec fn first_elements(conses: Seq<Cons>, term: Term, count: nat) -> Seq<Term>
    decreases count,
{
    if count == 0 {
        Seq::empty()
    } else {
        seq![cell(conses, term).head] + first_elements(
            conses,
            cell(conses, term).tail,
            (count - 1) as nat,
        )
    }
}

/// Whether the list `term` has `count` cells, all of them among `conses`: what is left behind them
/// is no cell of a list.
pub open spec fn ends_after(conses: Seq<Cons>, term: Term, count: nat) -> bool
    decreases count,
{
    if count == 0 {
        !term.has_tag(Tag::List)
    } else {
        is_cell(conses, term) && ends_after(conses, cell(conses, term).tail, (count - 1) as nat)
    }
}

/// Whether the list `term` has an end: it neither leads out of `conses` nor back into itself.
pub open spec fn has_end(conses: Seq<Cons>, term: Term) -> bool {
    term.has_tag(Tag::List) ==> exists|count: nat| ends_after(conses, term, count)
}

/// The number of cells of the list `term`. It is zero for a term that is no list.
pub open spec fn list_length(conses: Seq<Cons>, term: Term) -> nat
    recommends
        has_end(conses, term),
{
    if term.has_tag(Tag::List) {
        choose|count: nat| ends_after(conses, term, count)
    } else {
        0
    }
}

/// The elements of the list `term`, in order.
pub open spec fn elements(conses: Seq<Cons>, term: Term) -> Seq<Term>
    recommends
        has_end(conses, term),
{
    first_elements(conses, term, list_length(conses, term))
}

/// What follows the last element of the list `term`: the empty list where the list is proper.
pub open spec fn ending(conses: Seq<Cons>, term: Term) -> Term
    recommends
        has_end(conses, term),
{
    behind(conses, term, list_length(conses, term))
}

/// A list with an end has a number of cells.
pub(crate) proof fn lemma_list_length(conses: Seq<Cons>, term: Term)
    requires
        has_end(conses, term),
    ensures
        ends_after(conses, term, list_length(conses, term)),
{
}

/// A list that ends after some number of cells has that length and no other.
pub proof fn law_length_is_unique(conses: Seq<Cons>, term: Term, count: nat)
    requires
        ends_after(conses, term, count),
    ensures
        has_end(conses, term),
        list_length(conses, term) == count,
{
    if term.has_tag(Tag::List) {
        lemma_one_end(conses, term, count, list_length(conses, term));
    }
}

/// A list does not end twice.
proof fn lemma_one_end(conses: Seq<Cons>, term: Term, count: nat, other: nat)
    requires
        ends_after(conses, term, count),
        ends_after(conses, term, other),
    ensures
        count == other,
    decreases count,
{
    if count > 0 && other > 0 {
        lemma_one_end(
            conses,
            cell(conses, term).tail,
            (count - 1) as nat,
            (other - 1) as nat,
        );
    }
}

/// Behind some of the cells of a list, the rest of its cells and its end follow.
proof fn lemma_behind(conses: Seq<Cons>, term: Term, count: nat, passed: nat)
    requires
        ends_after(conses, term, count),
        passed <= count,
    ensures
        ends_after(conses, behind(conses, term, passed), (count - passed) as nat),
    decreases passed,
{
    if passed > 0 {
        lemma_behind(
            conses,
            cell(conses, term).tail,
            (count - 1) as nat,
            (passed - 1) as nat,
        );
    }
}

/// A list has as many elements as cells, and ends with no cell of a list.
pub proof fn law_elements_and_ending(conses: Seq<Cons>, term: Term)
    requires
        has_end(conses, term),
    ensures
        elements(conses, term).len() == list_length(conses, term),
        !ending(conses, term).has_tag(Tag::List),
{
    lemma_list_length(conses, term);
    lemma_first_elements(conses, term, list_length(conses, term));
    lemma_behind(conses, term, list_length(conses, term), list_length(conses, term));
}

/// The first cells hold one element each.
proof fn lemma_first_elements(conses: Seq<Cons>, term: Term, count: nat)
    ensures
        first_elements(conses, term, count).len() == count,
    decreases count,
{
    if count > 0 {
        lemma_first_elements(conses, cell(conses, term).tail, (count - 1) as nat);
    }
}

/// A list has an end where its tail has. Its elements are then its head and the elements of its
/// tail, and it ends as its tail does.
pub proof fn law_elements_of_list(conses: Seq<Cons>, term: Term)
    requires
        is_cell(conses, term),
    ensures
        has_end(conses, term) <==> has_end(conses, cell(conses, term).tail),
        has_end(conses, term) ==> {
            let Cons { head, tail } = cell(conses, term);
            &&& list_length(conses, term) == list_length(conses, tail) + 1
            &&& elements(conses, term) == seq![head] + elements(conses, tail)
            &&& ending(conses, term) == ending(conses, tail)
        },
{
    let tail = cell(conses, term).tail;
    if has_end(conses, term) {
        let count = list_length(conses, term);
        lemma_list_length(conses, term);
        law_length_is_unique(conses, tail, (count - 1) as nat);
    }
    if has_end(conses, tail) {
        lemma_list_length(conses, tail);
        law_length_is_unique(conses, term, list_length(conses, tail) + 1);
    }
}

/// A term that is no list, but for the empty one, has no elements and ends with itself.
pub proof fn law_elements_of_other_terms(conses: Seq<Cons>, term: Term)
    requires
        !term.has_tag(Tag::List),
    ensures
        has_end(conses, term),
        list_length(conses, term) == 0,
        elements(conses, term) == Seq::<Term>::empty(),
        ending(conses, term) == term,
{
}

/// No list that has an end has more elements than there are cells.
pub proof fn law_length_is_bounded(conses: Seq<Cons>, term: Term)
    requires
        has_end(conses, term),
    ensures
        list_length(conses, term) <= conses.len(),
{
    let count = list_length(conses, term);
    lemma_list_length(conses, term);
    let visited = Seq::new(count, |i: int| index_at(behind(conses, term, i as nat).address()));
    let all = set_int_range(0, conses.len() as int);
    assert forall|i: int| 0 <= i < count implies is_cell(
        conses,
        #[trigger] behind(conses, term, i as nat),
    ) by {
        lemma_behind(conses, term, count, i as nat);
    }
    assert forall|i: int, j: int| 0 <= i < j < count implies visited[i] != visited[j] by {
        let (a, b) = (behind(conses, term, i as nat), behind(conses, term, j as nat));
        assert(is_cell(conses, a) && is_cell(conses, b));
        if visited[i] == visited[j] {
            assert(a == b);
            lemma_behind(conses, term, count, i as nat);
            lemma_behind(conses, term, count, j as nat);
            lemma_one_end(conses, a, (count - i) as nat, (count - j) as nat);
        }
    }
    assert(visited.no_duplicates());
    assert forall|index: int| visited.to_set().contains(index) implies all.contains(index) by {
        let i = choose|i: int| 0 <= i < count && visited[i] == index;
        assert(is_cell(conses, behind(conses, term, i as nat)));
    }
    visited.unique_seq_to_set();
    lemma_int_range(0, conses.len() as int);
    lemma_len_subset(visited.to_set(), all);
}

/// A list with an end keeps its length, its elements and its ending whatever cells are added.
pub(crate) proof fn lemma_lists_outlive_growth(
    conses: Seq<Cons>,
    later: Seq<Cons>,
    term: Term,
    count: nat,
)
    requires
        conses.is_prefix_of(later),
        ends_after(conses, term, count),
    ensures
        ends_after(later, term, count),
        first_elements(later, term, count) == first_elements(conses, term, count),
        behind(later, term, count) == behind(conses, term, count),
    decreases count,
{
    if count > 0 {
        assert(later[index_at(term.address())] == conses[index_at(term.address())]);
        lemma_lists_outlive_growth(
            conses,
            later,
            cell(conses, term).tail,
            (count - 1) as nat,
        );
    }
}

} // verus!
