use lumen_runtime::arena::{TypedArena, CELL_STRIDE};
use lumen_runtime::atom::{Index, Table};
use lumen_runtime::environment::Environment;
use lumen_runtime::list::Cons;
use lumen_runtime::process::{IntoProcess, Process};
use lumen_runtime::tag::Tag;
use lumen_runtime::term::{BadArgument, Term};

fn integer(value: isize, process: &mut Process) -> Term {
    value.into_process(process)
}

#[test]
fn arenas_hand_out_aligned_addresses() {
    let mut arena: TypedArena<u8> = TypedArena::new();
    let first = arena.alloc_value(7);
    let second = arena.alloc_value(8);
    assert_eq!(first, CELL_STRIDE);
    assert_eq!(second, 2 * CELL_STRIDE);
    assert_eq!(first & Tag::PRIMARY_MASK, 0);
    assert_eq!(*arena.get(first), 7);
    assert_eq!(*arena.get(second), 8);
}

#[test]
fn slices_stay_together() {
    let mut arena: TypedArena<Term> = TypedArena::new();
    arena.alloc_value(Term::arity(9));
    let slice = [Term::arity(1), Term::empty_list(), Term::arity(2)];
    let address = Term::alloc_slice(&slice, &mut arena);
    for (index, term) in slice.iter().enumerate() {
        assert_eq!(arena.get(address + index * CELL_STRIDE).tagged, term.tagged);
        assert_eq!(arena.get_behind(address, index).tagged, term.tagged);
    }
}

#[test]
fn an_empty_slice_takes_no_cell() {
    let mut arena: TypedArena<Term> = TypedArena::new();
    let address = Term::alloc_slice(&[], &mut arena);
    assert_eq!(arena.alloc_value(Term::empty_list()), address);
}

#[test]
fn names_are_numbered_once() {
    let mut table = Table::new();
    assert_eq!(table.find_or_insert("a"), Index(0));
    assert_eq!(table.find_or_insert("b"), Index(1));
    assert_eq!(table.find_or_insert("a"), Index(0));
    assert_eq!(table.find_or_insert(""), Index(2));
    assert_eq!(table.find_or_insert("b"), Index(1));
}

#[test]
fn environments_number_atoms() {
    let mut environment = Environment::new();
    assert_eq!(environment.find_or_insert_atom("ok"), Index(0));
    assert_eq!(environment.find_or_insert_atom("error"), Index(1));
    let mut process = Process::new(environment);
    assert_eq!(process.find_or_insert_atom("error").tagged, Term::from(Index(1)).tagged);
    assert_eq!(process.find_or_insert_atom("new").tagged, Term::from(Index(2)).tagged);
}

#[test]
fn atoms_are_their_names() {
    let mut process = Process::new(Environment::new());
    let first = process.find_or_insert_atom("first");
    let second = process.find_or_insert_atom("second");
    assert!(first.ne(&second, &process));
    assert_eq!(process.find_or_insert_atom("first").tagged, first.tagged);
}

#[test]
fn booleans_are_atoms() {
    let mut process = Process::new(Environment::new());
    let yes: Term = true.into_process(&mut process);
    let no: Term = false.into_process(&mut process);
    assert!(yes.ne(&no, &process));
    assert_eq!(process.find_or_insert_atom("true").tagged, yes.tagged);
    assert_eq!(process.find_or_insert_atom("false").tagged, no.tagged);
}

#[test]
fn lists_give_back_what_they_were_made_of() {
    let mut process = Process::new(Environment::new());
    let one = integer(1, &mut process);
    let two = integer(2, &mut process);
    let inner = Term::cons(two, Term::empty_list(), &mut process);
    let outer = Term::cons(one, inner, &mut process);
    for value in 0..20 {
        let head = integer(value, &mut process);
        Term::cons(head, outer, &mut process);
    }
    assert!(outer.head(&process).unwrap().eq(&one, &process));
    assert_eq!(outer.tail(&process).unwrap().tagged, inner.tagged);
    assert!(inner.head(&process).unwrap().eq(&two, &process));
    assert!(inner.tail(&process).unwrap().eq(&Term::empty_list(), &process));
    let cell: &Cons = Cons::from(outer, &process);
    assert_eq!(cell.head().tagged, one.tagged);
    assert_eq!(cell.tail().tagged, inner.tagged);
    assert_eq!(outer.tagged, outer.cons_address() + 1);
}

#[test]
fn each_cell_adds_one_to_the_length() {
    let mut process = Process::new(Environment::new());
    let mut list = Term::empty_list();
    for length in 0..10 {
        assert_eq!(list.length(&mut process).unwrap().to_isize(), length);
        list = Term::cons(Term::empty_list(), list, &mut process);
    }
}

#[test]
fn a_long_improper_list_has_no_length() {
    let mut process = Process::new(Environment::new());
    let mut list = integer(0, &mut process);
    for _ in 0..5 {
        list = Term::cons(Term::empty_list(), list, &mut process);
    }
    assert_eq!(list.length(&mut process).unwrap_err(), BadArgument);
}

#[test]
fn a_list_through_a_younger_cell_has_a_length() {
    let mut process = Process::new(Environment::new());
    let first = Term::cons(Term::empty_list(), Term::empty_list(), &mut process);
    let next_but_one = Term { tagged: first.tagged + 2 * CELL_STRIDE };
    let second = Term::cons(Term::empty_list(), next_but_one, &mut process);
    let third = Term::cons(Term::empty_list(), first, &mut process);
    assert_eq!(third.tagged, next_but_one.tagged);
    assert_eq!(second.length(&mut process).unwrap().to_isize(), 3);
}

#[test]
fn tuples_hold_a_header_and_their_elements() {
    let mut process = Process::new(Environment::new());
    let one = integer(1, &mut process);
    let atom = process.find_or_insert_atom("atom");
    Term::slice_to_tuple(&[one], &mut process);
    let tuple = Term::slice_to_tuple(&[one, atom], &mut process);
    Term::slice_to_tuple(&[atom], &mut process);
    assert_eq!(tuple.tag(), Tag::Boxed);
    assert_eq!(tuple.unbox(&process).tag(), Tag::Arity);
    assert_eq!(tuple.unbox(&process).to_usize(), 2);
    let header = tuple.tagged - 2;
    assert_eq!(header, tuple.boxed_address());
    assert_eq!(process.word(header + CELL_STRIDE).tagged, one.tagged);
    assert_eq!(process.word_behind(header, 2).tagged, atom.tagged);
}

#[test]
fn a_box_around_no_header_is_no_tuple() {
    let mut process = Process::new(Environment::new());
    let one = integer(1, &mut process);
    let tuple = Term::slice_to_tuple(&[one], &mut process);
    let element = Term { tagged: tuple.tagged + CELL_STRIDE };
    let no: Term = false.into_process(&mut process);
    assert_eq!(element.unbox(&process).tagged, one.tagged);
    assert_eq!(element.is_tuple(&mut process).tagged, no.tagged);
}

#[test]
fn predicates_leave_terms_alone() {
    let mut process = Process::new(Environment::new());
    let atom = process.find_or_insert_atom("atom");
    let list = Term::cons(atom, Term::empty_list(), &mut process);
    list.is_atom(&mut process);
    list.is_list(&mut process);
    list.is_tuple(&mut process);
    assert_eq!(process.find_or_insert_atom("atom").tagged, atom.tagged);
    assert!(list.head(&process).unwrap().eq(&atom, &process));
}

#[test]
fn every_term_is_of_one_kind() {
    let mut process = Process::new(Environment::new());
    let yes: Term = true.into_process(&mut process);
    let terms = [
        process.find_or_insert_atom("atom"),
        integer(4, &mut process),
        Term::empty_list(),
        Term::cons(yes, Term::empty_list(), &mut process),
        Term::slice_to_tuple(&[yes], &mut process),
    ];
    for term in terms {
        let kinds = [
            term.is_atom(&mut process),
            term.is_integer(&mut process),
            term.is_list(&mut process),
            term.is_tuple(&mut process),
        ];
        assert_eq!(kinds.iter().filter(|kind| kind.eq(&yes, &process)).count(), 1);
    }
}
