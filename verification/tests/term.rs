use lumen_runtime::environment::Environment;
use lumen_runtime::process::{IntoProcess, Process};
use lumen_runtime::term::{BadArgument, Term};

fn process() -> Process {
    Process::new(Environment::new())
}

fn small_integer_term(process: &mut Process, signed_size: isize) -> Term {
    signed_size.into_process(process)
}

fn list_term(process: &mut Process) -> Term {
    let head_term = process.find_or_insert_atom("head");
    Term::cons(head_term, Term::empty_list(), process)
}

fn tuple_term(process: &mut Process) -> Term {
    Term::slice_to_tuple(&[], process)
}

#[test]
fn with_list_is_bad_argument() {
    let mut process = process();
    let list_term = list_term(&mut process);

    assert_eq!(list_term.abs().unwrap_err(), BadArgument);
}

#[test]
fn with_negative_is_positive() {
    let mut process = process();

    let negative: isize = -1;
    let negative_term: Term = negative.into_process(&mut process);

    let positive = -negative;
    let positive_term: Term = positive.into_process(&mut process);

    assert!(negative_term.abs().unwrap().eq(&positive_term, &process));
}

#[test]
fn with_positive_is_self() {
    let mut process = process();
    let positive_term: Term = 1usize.into_process(&mut process);

    assert!(positive_term.abs().unwrap().eq(&positive_term, &process));
}

#[test]
fn with_list_returns_head() {
    let mut process = process();
    let head_term = process.find_or_insert_atom("head");
    let list_term = Term::cons(head_term, Term::empty_list(), &mut process);

    assert!(list_term.head(&process).unwrap().eq(&head_term, &process));
}

#[test]
fn with_list_returns_tail() {
    let mut process = process();
    let head_term = process.find_or_insert_atom("head");
    let list_term = Term::cons(head_term, Term::empty_list(), &mut process);

    assert!(list_term.tail(&process).unwrap().eq(&Term::empty_list(), &process));
}

#[test]
fn with_atom_is_true() {
    let mut process = process();
    let atom_term = process.find_or_insert_atom("atom");

    let result = atom_term.is_atom(&mut process);
    let true_term: Term = true.into_process(&mut process);

    assert!(result.eq(&true_term, &process));
}

#[test]
fn with_booleans_is_true() {
    let mut process = process();
    let true_term: Term = true.into_process(&mut process);
    let false_term: Term = false.into_process(&mut process);

    let result = true_term.is_atom(&mut process);
    assert!(result.eq(&true_term, &process));
    let result = false_term.is_atom(&mut process);
    assert!(result.eq(&true_term, &process));
}

#[test]
fn with_nil_is_true() {
    let mut process = process();
    let nil_term = process.find_or_insert_atom("nil");
    let true_term: Term = true.into_process(&mut process);

    let result = nil_term.is_atom(&mut process);
    assert!(result.eq(&true_term, &process));
}

#[test]
fn with_small_integer_is_true() {
    let mut process = process();
    let zero_term: Term = 0usize.into_process(&mut process);
    let true_term: Term = true.into_process(&mut process);

    let result = zero_term.is_integer(&mut process);
    assert!(result.eq(&true_term, &process));
}

#[test]
fn with_list_is_true() {
    let mut process = process();
    let list_term = list_term(&mut process);
    let true_term: Term = true.into_process(&mut process);

    let result = list_term.is_list(&mut process);
    assert!(result.eq(&true_term, &process));
}

#[test]
fn with_tuple_is_true() {
    let mut process = process();
    let tuple_term = tuple_term(&mut process);
    let true_term: Term = true.into_process(&mut process);

    let result = tuple_term.is_tuple(&mut process);
    assert!(result.eq(&true_term, &process));
}

#[test]
fn with_empty_list_is_zero() {
    let mut process = process();
    let zero_term = small_integer_term(&mut process, 0);

    let length = Term::empty_list().length(&mut process).unwrap();

    assert!(length.eq(&zero_term, &process));
}

#[test]
fn with_improper_list_is_bad_argument() {
    let mut process = process();
    let head_term = process.find_or_insert_atom("head");
    let tail_term = process.find_or_insert_atom("tail");
    let improper_list_term = Term::cons(head_term, tail_term, &mut process);

    assert_eq!(improper_list_term.length(&mut process).unwrap_err(), BadArgument);
}

#[test]
fn with_list_is_length() {
    let mut process = process();
    let list_term = (0..=2).rfold(Term::empty_list(), |acc, i| {
        Term::cons(small_integer_term(&mut process, i), acc, &mut process)
    });

    let length = list_term.length(&mut process).unwrap();
    let three_term = small_integer_term(&mut process, 3);

    assert!(length.eq(&three_term, &process));
}

#[test]
fn abs_with_atom_is_bad_argument() {
    let mut process = process();
    let atom_term = process.find_or_insert_atom("atom");

    assert_eq!(atom_term.abs().unwrap_err(), BadArgument);
}

#[test]
fn with_atom_is_bad_argument() {
    let mut process = process();
    let atom_term = process.find_or_insert_atom("atom");

    assert_eq!(atom_term.head(&process).unwrap_err(), BadArgument);
}

#[test]
fn term_with_atom_is_bad_argument() {
    let mut process = process();
    let atom_term = process.find_or_insert_atom("atom");

    assert_eq!(atom_term.tail(&process).unwrap_err(), BadArgument);
}

#[test]
fn length_with_atom_is_bad_argument() {
    let mut process = process();
    let atom_term = process.find_or_insert_atom("atom");

    assert_eq!(atom_term.length(&mut process).unwrap_err(), BadArgument);
}

#[test]
fn abs_with_empty_list_is_bad_argument() {
    let empty_list_term = Term::empty_list();

    assert_eq!(empty_list_term.abs().unwrap_err(), BadArgument);
}

#[test]
fn with_empty_list_is_bad_argument() {
    let process = process();
    let empty_list_term = Term::empty_list();

    assert_eq!(empty_list_term.head(&process).unwrap_err(), BadArgument);
}

#[test]
fn term_with_empty_list_is_bad_argument() {
    let process = process();
    let empty_list_term = Term::empty_list();

    assert_eq!(empty_list_term.tail(&process).unwrap_err(), BadArgument);
}

#[test]
fn abs_with_tuple_is_bad_argument() {
    let mut process = process();
    let tuple_term = tuple_term(&mut process);

    assert_eq!(tuple_term.abs().unwrap_err(), BadArgument);
}

#[test]
fn with_tuple_is_bad_argument() {
    let mut process = process();
    let tuple_term = tuple_term(&mut process);

    assert_eq!(tuple_term.head(&process).unwrap_err(), BadArgument);
}

#[test]
fn term_with_tuple_is_bad_argument() {
    let mut process = process();
    let tuple_term = tuple_term(&mut process);

    assert_eq!(tuple_term.tail(&process).unwrap_err(), BadArgument);
}

#[test]
fn length_with_tuple_is_bad_argument() {
    let mut process = process();
    let tuple_term = tuple_term(&mut process);

    assert_eq!(tuple_term.length(&mut process).unwrap_err(), BadArgument);
}

#[test]
fn with_small_integer_is_bad_argument() {
    let mut process = process();
    let small_integer_term = small_integer_term(&mut process, 0);

    assert_eq!(small_integer_term.head(&process).unwrap_err(), BadArgument);
}

#[test]
fn term_with_small_integer_is_bad_argument() {
    let mut process = process();
    let small_integer_term = small_integer_term(&mut process, 0);

    assert_eq!(small_integer_term.tail(&process).unwrap_err(), BadArgument);
}

#[test]
fn length_with_small_integer_is_bad_argument() {
    let mut process = process();
    let small_integer_term = small_integer_term(&mut process, 0);

    assert_eq!(small_integer_term.length(&mut process).unwrap_err(), BadArgument);
}

#[test]
fn with_empty_list_is_false() {
    let mut process = process();
    let empty_list_term = Term::empty_list();
    let false_term: Term = false.into_process(&mut process);

    let result = empty_list_term.is_atom(&mut process);
    assert!(result.eq(&false_term, &process));
}

#[test]
fn term_with_empty_list_is_false() {
    let mut process = process();
    let empty_list_term = Term::empty_list();
    let false_term: Term = false.into_process(&mut process);

    let result = empty_list_term.is_integer(&mut process);
    assert!(result.eq(&false_term, &process));
}

#[test]
fn is_tuple_with_empty_list_is_false() {
    let mut process = process();
    let empty_list_term = Term::empty_list();
    let false_term: Term = false.into_process(&mut process);

    let result = empty_list_term.is_tuple(&mut process);
    assert!(result.eq(&false_term, &process));
}

#[test]
fn with_list_is_false() {
    let mut process = process();
    let head_term = process.find_or_insert_atom("head");
    let list_term = Term::cons(head_term, Term::empty_list(), &mut process);
    let false_term: Term = false.into_process(&mut process);

    let result = list_term.is_atom(&mut process);
    assert!(result.eq(&false_term, &process));
}

#[test]
fn term_with_list_is_false() {
    let mut process = process();
    let head_term = process.find_or_insert_atom("head");
    let list_term = Term::cons(head_term, Term::empty_list(), &mut process);
    let false_term: Term = false.into_process(&mut process);

    let result = list_term.is_empty_list(&mut process);
    assert!(result.eq(&false_term, &process));
}

#[test]
fn is_integer_with_list_is_false() {
    let mut process = process();
    let list_term = list_term(&mut process);
    let false_term: Term = false.into_process(&mut process);

    let result = list_term.is_integer(&mut process);
    assert!(result.eq(&false_term, &process));
}

#[test]
fn is_tuple_with_list_is_false() {
    let mut process = process();
    let list_term = list_term(&mut process);
    let false_term: Term = false.into_process(&mut process);

    let result = list_term.is_tuple(&mut process);
    assert!(result.eq(&false_term, &process));
}

#[test]
fn with_small_integer_is_false() {
    let mut process = process();
    let small_integer_term = small_integer_term(&mut process, 0);
    let false_term: Term = false.into_process(&mut process);

    let result = small_integer_term.is_atom(&mut process);
    assert!(result.eq(&false_term, &process));
}

#[test]
fn term_with_small_integer_is_false() {
    let mut process = process();
    let small_integer_term = small_integer_term(&mut process, 0);
    let false_term: Term = false.into_process(&mut process);

    let result = small_integer_term.is_empty_list(&mut process);
    assert!(result.eq(&false_term, &process));
}

#[test]
fn is_list_with_small_integer_is_false() {
    let mut process = process();
    let small_integer_term = small_integer_term(&mut process, 0);
    let false_term: Term = false.into_process(&mut process);

    let result = small_integer_term.is_list(&mut process);
    assert!(result.eq(&false_term, &process));
}

#[test]
fn is_tuple_with_small_integer_is_false() {
    let mut process = process();
    let small_integer_term = small_integer_term(&mut process, 0);
    let false_term: Term = false.into_process(&mut process);

    let result = small_integer_term.is_tuple(&mut process);
    assert!(result.eq(&false_term, &process));
}

#[test]
fn with_tuple_is_false() {
    let mut process = process();
    let tuple_term = tuple_term(&mut process);
    let false_term: Term = false.into_process(&mut process);

    let result = tuple_term.is_atom(&mut process);
    assert!(result.eq(&false_term, &process));
}

#[test]
fn term_with_tuple_is_false() {
    let mut process = process();
    let tuple_term = tuple_term(&mut process);
    let false_term: Term = false.into_process(&mut process);

    let result = tuple_term.is_empty_list(&mut process);
    assert!(result.eq(&false_term, &process));
}

#[test]
fn is_integer_with_tuple_is_false() {
    let mut process = process();
    let tuple_term = tuple_term(&mut process);
    let false_term: Term = false.into_process(&mut process);

    let result = tuple_term.is_integer(&mut process);
    assert!(result.eq(&false_term, &process));
}

#[test]
fn is_list_with_tuple_is_false() {
    let mut process = process();
    let tuple_term = tuple_term(&mut process);
    let false_term: Term = false.into_process(&mut process);

    let result = tuple_term.is_list(&mut process);
    assert!(result.eq(&false_term, &process));
}

#[test]
fn with_atom_is_false() {
    let mut process = process();
    let atom_term = process.find_or_insert_atom("atom");
    let false_term: Term = false.into_process(&mut process);

    let result = atom_term.is_empty_list(&mut process);
    assert!(result.eq(&false_term, &process));
}

#[test]
fn term_with_atom_is_false() {
    let mut process = process();
    let atom_term = process.find_or_insert_atom("atom");
    let false_term: Term = false.into_process(&mut process);

    let result = atom_term.is_integer(&mut process);
    assert!(result.eq(&false_term, &process));
}

#[test]
fn is_list_with_atom_is_false() {
    let mut process = process();
    let atom_term = process.find_or_insert_atom("atom");
    let false_term: Term = false.into_process(&mut process);

    let result = atom_term.is_list(&mut process);
    assert!(result.eq(&false_term, &process));
}

#[test]
fn is_tuple_with_atom_is_false() {
    let mut process = process();
    let atom_term = process.find_or_insert_atom("atom");
    let false_term: Term = false.into_process(&mut process);

    let result = atom_term.is_tuple(&mut process);
    assert!(result.eq(&false_term, &process));
}

#[test]
fn with_empty_list_is_true() {
    let mut process = process();
    let empty_list_term = Term::empty_list();
    let true_term: Term = true.into_process(&mut process);

    let result = empty_list_term.is_empty_list(&mut process);
    assert!(result.eq(&true_term, &process));
}

#[test]
fn term_with_empty_list_is_true() {
    let mut process = process();
    let empty_list_term = Term::empty_list();
    let true_term: Term = true.into_process(&mut process);

    let result = empty_list_term.is_list(&mut process);
    assert!(result.eq(&true_term, &process));
}
