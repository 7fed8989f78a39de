# lumen_runtime

Tagged terms of an Erlang-like runtime, verified with Verus. A term is one machine word: its low
bits are a tag, and the other bits are a small integer, the number of an atom, an arity, or the
address of a cell in the heap of a process.

- `tag`: the tags and how a word is told to carry one.
- `encoding`: how integers, atoms, arities and addresses are laid out in a word, and that they are
  read back unchanged.
- `term`: the operations on terms.
- `equality`, `compare`, `value`: when two terms are the same value, how they are compared, and that
  any two terms can be that are built of atoms, empty lists and small integers by lists and tuples.
- `list`: the cells of lists, and what the length, the elements and the ending of a list are.
- `arena`, `process`, `environment`, `atom`: the heap that terms live in and the names of atoms.
- `binary`: numbers in base two, for messages.
- `laws`: what holds of the operations taken together.

`app/` gives the library's types the formatting traits of std.
