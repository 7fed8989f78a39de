//! Arenas that hand out addresses for the values put into them.

use vstd::prelude::*;

verus! {

/// The distance between the addresses of neighbouring cells. It leaves the two lowest bits of every
/// address clear, so that a primary tag fits into them.
pub const CELL_STRIDE: usize = 4;

/// The address of the cell number `index`. No cell has the address zero.
pub open spec fn address_at(index: int) -> int {
    CELL_STRIDE * (index + 1)
}

/// The number of the cell at `address`.
pub open spec fn index_at(address: int) -> int {
    address / (CELL_STRIDE as int) - 1
}

/// Whether `address` is that of one of the first `len` cells.
pub open spec fn in_use(address: int, len: nat) -> bool {
    address % (CELL_STRIDE as int) == 0 && CELL_STRIDE <= address <= CELL_STRIDE * len
}

/// Values of one type that live as long as the arena does. Nothing that is in an arena ever changes
/// or leaves, and new cells follow the old ones without a gap.
pub struct TypedArena<T> {
    cells: Vec<T>,
}

impl<T> View for TypedArena<T> {
    type V = Seq<T>;

    closed spec fn view(&self) -> Seq<T> {
        self.cells@
    }
}

/// Whether an arena of `len` cells can take `count` more: the address behind the last of them
/// still fits into a word.
pub open spec fn has_room(len: nat, count: nat) -> bool {
    address_at((len + count) as int) <= usize::MAX
}

impl<T> TypedArena<T> {
    /// An arena without cells.
    pub fn new() -> (arena: TypedArena<T>)
        ensures
            arena@ == Seq::<T>::empty(),
    {
        TypedArena { cells: Vec::new() }
    }

    /// The number of cells fits into a word.
    pub proof fn lemma_cells_are_countable(&self)
        ensures
            self@.len() <= usize::MAX,
    {
        assert(self.cells.len() == self.cells@.len());
    }

    /// The address that the next cell will get.
    fn next_address(&self) -> (address: usize)
        requires
            has_room(self@.len(), 0),
        ensures
            address == address_at(self@.len() as int),
    {
        CELL_STRIDE * (self.cells.len() + 1)
    }

    /// Puts `value` into a new cell and returns the cell's address.
    pub fn alloc_value(&mut self, value: T) -> (address: usize)
        requires
            has_room(old(self)@.len(), 1),
        ensures
            address == address_at(old(self)@.len() as int),
            final(self)@ == old(self)@.push(value),
    {
        let address = self.next_address();
        self.cells.push(value);
        address
    }

    /// Puts the values of `slice` into neighbouring new cells, in order, and returns the address
    /// of the first. For an empty slice that is the address that the next cell will get.
    pub fn alloc_slice(&mut self, slice: &[T]) -> (address: usize) where T: Copy
        requires
            has_room(old(self)@.len(), slice@.len()),
        ensures
            address == address_at(old(self)@.len() as int),
            final(self)@ == old(self)@ + slice@,
    {
        let address = self.next_address();
        let mut next: usize = 0;
        while next < slice.len()
            invariant
                next <= slice@.len(),
                self@ == old(self)@ + slice@.take(next as int),
            decreases slice@.len() - next,
        {
            self.cells.push(slice[next]);
            next = next + 1;
            assert(slice@.take(next as int) == slice@.take(next - 1).push(slice@[next - 1]));
        }
        assert(slice@.take(next as int) == slice@);
        address
    }

    /// The value at `address`.
    pub fn get(&self, address: usize) -> (value: &T)
        requires
            in_use(address as int, self@.len()),
        ensures
            *value == self@[index_at(address as int)],
    {
        self.get_behind(address, 0)
    }

    /// The value that is `offset` cells behind the one at `address`.
    pub fn get_behind(&self, address: usize, offset: usize) -> (value: &T)
        requires
            in_use(address as int, self@.len()),
            index_at(address as int) + offset < self@.len(),
        ensures
            *value == self@[index_at(address as int) + offset],
    {
        proof {
            self.lemma_cells_are_countable();
        }
        &self.cells[address / CELL_STRIDE - 1 + offset]
    }
}

/// What is put into a cell is found at the cell's address, and a cell that is in use keeps its
/// value whatever is put into the arena after it.
pub proof fn law_cells_keep_their_values<T>(cells: Seq<T>, later: Seq<T>, index: int)
    requires
        0 <= index < cells.len(),
    ensures
        in_use(address_at(index), cells.len()),
        in_use(address_at(index), (cells + later).len()),
        index_at(address_at(index)) == index,
        (cells + later)[index_at(address_at(index))] == cells[index],
{
}

} // verus!
