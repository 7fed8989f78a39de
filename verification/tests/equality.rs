use lumen_runtime::environment::Environment;
use lumen_runtime::process::{IntoProcess, Process};
use lumen_runtime::term::Term;

fn integer(value: isize, process: &mut Process) -> Term {
    value.into_process(process)
}

fn list(values: &[isize], end: Term, process: &mut Process) -> Term {
    let mut term = end;
    for value in values.iter().rev() {
        let head = integer(*value, process);
        term = Term::cons(head, term, process);
    }
    term
}

fn same(a: Term, b: Term, process: &Process) -> bool {
    let same = a.eq(&b, process);
    assert_eq!(a.ne(&b, process), !same);
    assert_eq!(b.eq(&a, process), same);
    same
}

#[test]
fn immediates_are_equal_by_value() {
    let mut process = Process::new(Environment::new());
    let five = integer(5, &mut process);
    let minus_five = integer(-5, &mut process);
    let zero = integer(0, &mut process);
    let a = process.find_or_insert_atom("a");
    let b = process.find_or_insert_atom("b");
    let empty = Term::empty_list();
    assert!(same(five, five, &process));
    assert!(!same(five, minus_five, &process));
    assert!(same(empty, empty, &process));
    assert!(!same(empty, zero, &process));
    assert!(same(a, a, &process));
    assert!(!same(a, b, &process));
    assert!(!same(a, zero, &process));
}

#[test]
fn terms_with_different_tags_differ() {
    let mut process = Process::new(Environment::new());
    let one = integer(1, &mut process);
    let a_list = list(&[1], Term::empty_list(), &mut process);
    let a_tuple = Term::slice_to_tuple(&[one], &mut process);
    let terms = [
        one,
        process.find_or_insert_atom("atom"),
        Term::empty_list(),
        Term::arity(1),
        a_list,
        a_tuple,
    ];
    for (i, a) in terms.iter().enumerate() {
        for (j, b) in terms.iter().enumerate() {
            if i != j {
                assert!(!same(*a, *b, &process));
            }
        }
    }
}

#[test]
fn a_number_is_no_tuple() {
    let mut process = Process::new(Environment::new());
    let one = integer(1, &mut process);
    let empty_tuple = Term::slice_to_tuple(&[], &mut process);
    let tuple = Term::slice_to_tuple(&[one], &mut process);
    assert!(!same(one, empty_tuple, &process));
    assert!(!same(one, tuple, &process));
}

#[test]
fn tuples_are_compared_by_size_then_element_by_element() {
    let mut process = Process::new(Environment::new());
    let one = integer(1, &mut process);
    let two = integer(2, &mut process);
    let x = Term::slice_to_tuple(&[one], &mut process);
    let y = Term::slice_to_tuple(&[one], &mut process);
    let z = Term::slice_to_tuple(&[], &mut process);
    let other = Term::slice_to_tuple(&[two], &mut process);
    let longer = Term::slice_to_tuple(&[one, two], &mut process);
    let swapped = Term::slice_to_tuple(&[two, one], &mut process);
    let again = Term::slice_to_tuple(&[], &mut process);
    assert_ne!(x.tagged, y.tagged);
    assert!(same(x, y, &process));
    assert!(same(x, x, &process));
    assert!(same(z, again, &process));
    assert!(!same(x, z, &process));
    assert!(!same(x, other, &process));
    assert!(!same(x, longer, &process));
    assert!(!same(longer, swapped, &process));
}

#[test]
fn lists_are_compared_element_by_element() {
    let mut process = Process::new(Environment::new());
    let x = list(&[1], Term::empty_list(), &mut process);
    let y = list(&[1], Term::empty_list(), &mut process);
    let z = list(&[2], Term::empty_list(), &mut process);
    let long = list(&[1, 2, 3], Term::empty_list(), &mut process);
    let long_again = list(&[1, 2, 3], Term::empty_list(), &mut process);
    let last_differs = list(&[1, 2, 4], Term::empty_list(), &mut process);
    assert_ne!(x.tagged, y.tagged);
    assert!(same(x, y, &process));
    assert!(!same(x, z, &process));
    assert!(!same(x, long, &process));
    assert!(same(long, long_again, &process));
    assert!(!same(long, last_differs, &process));
}

#[test]
fn improper_lists_are_compared_to_their_end() {
    let mut process = Process::new(Environment::new());
    let two = integer(2, &mut process);
    let three = integer(3, &mut process);
    let proper = list(&[1], Term::empty_list(), &mut process);
    let improper = list(&[1], two, &mut process);
    let improper_again = list(&[1], two, &mut process);
    let other_end = list(&[1], three, &mut process);
    assert!(same(improper, improper_again, &process));
    assert!(!same(improper, proper, &process));
    assert!(!same(improper, other_end, &process));
}

#[test]
fn nested_terms_are_compared_by_value() {
    let mut process = Process::new(Environment::new());
    let mut built = Vec::new();
    for last in [7, 7, 8] {
        let inner = list(&[1, last], Term::empty_list(), &mut process);
        let atom = process.find_or_insert_atom("atom");
        let pair = Term::slice_to_tuple(&[atom, inner], &mut process);
        let nested = Term::slice_to_tuple(&[pair, inner], &mut process);
        built.push(Term::cons(nested, Term::empty_list(), &mut process));
    }
    assert!(same(built[0], built[1], &process));
    assert!(!same(built[0], built[2], &process));
}

#[test]
fn nothing_behind_a_difference_is_looked_at() {
    let mut process = Process::new(Environment::new());
    let one = integer(1, &mut process);
    let two = integer(2, &mut process);
    let header = Term::arity(0);
    let a_tuple = Term::slice_to_tuple(&[one, header], &mut process);
    let b_tuple = Term::slice_to_tuple(&[two, header], &mut process);
    assert!(!same(a_tuple, b_tuple, &process));
    let a_list = Term::cons(one, header, &mut process);
    let b_list = Term::cons(two, header, &mut process);
    assert!(!same(a_list, b_list, &process));
}

#[test]
fn equality_outlives_growth() {
    let mut process = Process::new(Environment::new());
    let x = list(&[1, 2], Term::empty_list(), &mut process);
    let y = list(&[1, 2], Term::empty_list(), &mut process);
    let z = list(&[1, 3], Term::empty_list(), &mut process);
    for value in 0..10 {
        let term = integer(value, &mut process);
        Term::slice_to_tuple(&[term, x], &mut process);
        Term::cons(term, y, &mut process);
    }
    assert!(same(x, y, &process));
    assert!(!same(x, z, &process));
}

#[test]
fn long_lists_can_be_compared() {
    let mut process = Process::new(Environment::new());
    let values: Vec<isize> = (0..100_000).collect();
    let x = list(&values, Term::empty_list(), &mut process);
    let y = list(&values, Term::empty_list(), &mut process);
    assert!(same(x, y, &process));
}
