//! Promises on the names of atoms and on new processes.

use vstd::prelude::*;

use crate::atom::{Index, Table};
use crate::environment::Environment;
use crate::process::Process;
use crate::term::Term;

verus! {

/// New tables, environments and processes hold nothing, but for the atoms of its environment in a
/// process.
pub proof fn law_beginnings_are_empty(table: Table, environment: Environment, process: Process)
    requires
        call_ensures(Table::new, (), table),
        call_ensures(Environment::new, (), environment),
        call_ensures(Process::new, (environment,), process),
    ensures
        table@.len() == 0,
        environment@.len() == 0,
        process@.atoms.len() == 0,
        process@.conses.len() == 0,
        process@.words.len() == 0,
{
}

/// A new process has the atoms of its environment.
pub proof fn law_processes_take_over_the_atoms(environment: Environment, process: Process)
    requires
        call_ensures(Process::new, (environment,), process),
    ensures
        process@.atoms == environment@,
        process@.conses.len() == 0,
        process@.words.len() == 0,
{
}

/// A name is found under the number that is given for it, the first if there were several. It is
/// added, behind the others, exactly where it was missing, and nothing else changes.
pub proof fn law_tables_number_names(table: &mut Table, name: &str, index: Index)
    requires
        call_ensures(Table::find_or_insert, (table, name), index),
    ensures
        index.0 < final(table)@.len(),
        final(table)@[index.0 as int] == name@,
        forall|i: int| 0 <= i < index.0 ==> #[trigger] final(table)@[i] != name@,
        old(table)@.is_prefix_of(final(table)@),
        old(table)@.contains(name@) ==> final(table)@.len() == old(table)@.len(),
        !old(table)@.contains(name@) ==> final(table)@.len() == old(table)@.len() + 1 && index.0
            == old(table)@.len(),
{
}

/// An environment numbers names as its table does.
pub proof fn law_environments_number_names(
    environment: &mut Environment,
    name: &str,
    index: Index,
)
    requires
        call_ensures(Environment::find_or_insert_atom, (environment, name), index),
    ensures
        index.0 < final(environment)@.len(),
        final(environment)@[index.0 as int] == name@,
        forall|i: int| 0 <= i < index.0 ==> #[trigger] final(environment)@[i] != name@,
        old(environment)@.is_prefix_of(final(environment)@),
        old(environment)@.contains(name@) ==> final(environment)@.len()
            == old(environment)@.len(),
        !old(environment)@.contains(name@) ==> final(environment)@.len()
            == old(environment)@.len() + 1 && index.0 == old(environment)@.len(),
{
}

/// The atom that a process gives for a name has the name, and at most the name is added to the
/// process.
pub proof fn law_atoms_have_the_name_asked_for(process: &mut Process, name: &str, atom: Term)
    requires
        call_ensures(Process::find_or_insert_atom, (process, name), atom),
    ensures
        atom.tagged % 64 == 0b00_10_11,
        atom.tagged as int / 64 < final(process)@.atoms.len(),
        final(process)@.atoms[atom.tagged as int / 64] == name@,
        final(process)@.atoms.no_duplicates(),
        old(process)@.atoms.is_prefix_of(final(process)@.atoms),
        old(process)@.atoms.contains(name@) ==> final(process)@.atoms.len()
            == old(process)@.atoms.len(),
        !old(process)@.atoms.contains(name@) ==> final(process)@.atoms.len()
            == old(process)@.atoms.len() + 1 && atom.tagged as int / 64
            == old(process)@.atoms.len(),
        final(process)@.conses == old(process)@.conses,
        final(process)@.words == old(process)@.words,
{
}

/// The same name gives the same atom, and different names give different atoms, also when atoms
/// were made between the two.
pub proof fn law_names_tell_atoms_apart(
    before: &mut Process,
    first: &str,
    of_first: Term,
    after: &mut Process,
    second: &str,
    of_second: Term,
)
    requires
        call_ensures(Process::find_or_insert_atom, (before, first), of_first),
        final(before)@.atoms.is_prefix_of(old(after)@.atoms),
        call_ensures(Process::find_or_insert_atom, (after, second), of_second),
    ensures
        of_first.tagged == of_second.tagged <==> first@ == second@,
{
    law_atoms_have_the_name_asked_for(before, first, of_first);
    law_atoms_have_the_name_asked_for(after, second, of_second);
    let (i, j) = (of_first.tagged as int / 64, of_second.tagged as int / 64);
    assert(final(after)@.atoms[i] == final(before)@.atoms[i]);
    if first@ == second@ {
        assert(i == j);
    }
}

/// Every name can be asked for while all atoms are different and there is a number left.
pub proof fn law_names_can_be_asked_for(
    table: &mut Table,
    environment: &mut Environment,
    process: &mut Process,
    name: &str,
)
    ensures
        call_requires(Table::find_or_insert, (table, name)),
        call_requires(Environment::find_or_insert_atom, (environment, name)),
        old(process)@.atoms.no_duplicates() && 64 * old(process)@.atoms.len() <= usize::MAX - 63
            ==> call_requires(Process::find_or_insert_atom, (process, name)),
{
}

} // verus!
