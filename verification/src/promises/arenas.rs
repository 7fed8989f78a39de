//! Promises on arenas.

use vstd::prelude::*;

use crate::arena::TypedArena;

verus! {

/// A new arena has no cells.
pub proof fn law_new_arenas_are_empty<T>(arena: TypedArena<T>)
    requires
        call_ensures(TypedArena::<T>::new, (), arena),
    ensures
        arena@.len() == 0,
{
}

/// What was put into an arena is found at the address that was given for it, also when more was put
/// into the arena since. The address is not zero, and its two lowest bits are clear.
pub proof fn law_arenas_give_back<T>(
    arena: &mut TypedArena<T>,
    value: T,
    address: usize,
    later: &TypedArena<T>,
    found: &T,
)
    requires
        call_ensures(TypedArena::<T>::alloc_value, (arena, value), address),
        final(arena)@.is_prefix_of(later@),
        call_ensures(TypedArena::<T>::get, (later, address), found),
    ensures
        *found == value,
        address % 4 == 0,
        address > 0,
        old(arena)@.is_prefix_of(final(arena)@),
        final(arena)@.len() == old(arena)@.len() + 1,
{
    let index = old(arena)@.len() as int;
    assert(later@[index] == final(arena)@[index]);
}

/// The values of a slice are found one behind the other from the address that was given for them.
pub proof fn law_arenas_give_back_slices<T: Copy>(
    arena: &mut TypedArena<T>,
    slice: &[T],
    address: usize,
    later: &TypedArena<T>,
    offset: usize,
    found: &T,
)
    requires
        call_ensures(TypedArena::<T>::alloc_slice, (arena, slice), address),
        final(arena)@.is_prefix_of(later@),
        offset < slice@.len(),
        call_ensures(TypedArena::<T>::get_behind, (later, address, offset), found),
    ensures
        *found == slice@[offset as int],
        address % 4 == 0,
        address > 0,
        old(arena)@.is_prefix_of(final(arena)@),
        final(arena)@.len() == old(arena)@.len() + slice@.len(),
{
    let index = old(arena)@.len() + offset;
    assert(later@[index] == final(arena)@[index]);
}

/// A new cell is behind all others, and the value of every cell is found at its address.
pub proof fn law_cells_are_counted_by_address<T>(
    arena: &mut TypedArena<T>,
    value: T,
    address: usize,
    shared: &TypedArena<T>,
    at: usize,
    offset: usize,
    found: &T,
    behind: &T,
)
    requires
        call_ensures(TypedArena::<T>::alloc_value, (arena, value), address),
        at % 4 == 0,
        4 <= at,
        at as int / 4 + offset <= shared@.len(),
        call_ensures(TypedArena::<T>::get, (shared, at), found),
        call_ensures(TypedArena::<T>::get_behind, (shared, at, offset), behind),
    ensures
        address == 4 * (old(arena)@.len() + 1),
        final(arena)@.last() == value,
        *found == shared@[at as int / 4 - 1],
        *behind == shared@[at as int / 4 - 1 + offset],
        call_requires(TypedArena::<T>::get, (shared, at)),
        call_requires(TypedArena::<T>::get_behind, (shared, at, offset)),
{
}

/// Values that were put into an arena one after the other are at different addresses.
pub proof fn law_cells_are_at_different_addresses<T>(
    before: &mut TypedArena<T>,
    value: T,
    address: usize,
    after: &mut TypedArena<T>,
    other: T,
    other_address: usize,
)
    requires
        call_ensures(TypedArena::<T>::alloc_value, (before, value), address),
        final(before)@.is_prefix_of(old(after)@),
        call_ensures(TypedArena::<T>::alloc_value, (after, other), other_address),
    ensures
        address != other_address,
{
}

/// Values can be put into an arena while there are addresses left, and every cell can be read.
pub proof fn law_arenas_can_be_filled_and_read<T: Copy>(
    arena: &mut TypedArena<T>,
    value: T,
    slice: &[T],
    shared: &TypedArena<T>,
    address: usize,
    offset: usize,
)
    ensures
        4 * (old(arena)@.len() + 2) <= usize::MAX ==> call_requires(
            TypedArena::<T>::alloc_value,
            (arena, value),
        ),
        4 * (old(arena)@.len() + slice@.len() + 1) <= usize::MAX ==> call_requires(
            TypedArena::<T>::alloc_slice,
            (arena, slice),
        ),
        address % 4 == 0 && 4 <= address && address as int / 4 + offset <= shared@.len()
            ==> call_requires(TypedArena::<T>::get_behind, (shared, address, offset)),
{
}

} // verus!
