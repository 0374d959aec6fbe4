//! The trusted boundary to the `volatile` crate. Every cell of the
//! grid is held in a `volatile::Volatile<u16>`, so that each store
//! reaches the memory-mapped display exactly once, unmerged and in
//! order. The functions here are the only ones whose bodies Verus
//! does not read; their contracts state what the crate's `new`,
//! `read` and `write` do with the held value.

use vstd::prelude::*;

verus! {

#[verifier::external_type_specification]
#[verifier::external_body]
#[verifier::reject_recursive_types(T)]
pub struct ExVolatile<T: Copy>(volatile::Volatile<T>);

/// The value a volatile cell currently holds.
pub uninterp spec fn vol_val(v: volatile::Volatile<u16>) -> u16;

/// Relies on volatile::Volatile::new: the new cell holds the given
/// value, which a later volatile read returns.
#[verifier::external_body]
pub(crate) fn vol_new(value: u16) -> (v: volatile::Volatile<u16>)
    ensures
        vol_val(v) == value,
{
    volatile::Volatile::new(value)
}

/// Relies on volatile::Volatile::read: a volatile load that returns a
/// copy of the held value.
#[verifier::external_body]
pub(crate) fn vol_read(cells: &Vec<volatile::Volatile<u16>>, i: usize) -> (r: u16)
    requires
        i < cells@.len(),
    ensures
        r == vol_val(cells@[i as int]),
{
    cells[i].read()
}

/// Relies on volatile::Volatile::write: a volatile store that
/// replaces the held value of the one indexed cell.
#[verifier::external_body]
pub(crate) fn vol_write(cells: &mut Vec<volatile::Volatile<u16>>, i: usize, value: u16)
    requires
        i < old(cells)@.len(),
    ensures
        final(cells)@.len() == old(cells)@.len(),
        vol_val(final(cells)@[i as int]) == value,
        forall|j: int|
            0 <= j < final(cells)@.len() && j != i ==> final(cells)@[j] == old(cells)@[j],
{
    cells[i].write(value)
}

} // verus!
