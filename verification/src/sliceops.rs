//! Mutable access to a bounded range of a vector. vstd specifies reads and
//! single-element writes; the range form of mutable slice indexing has no
//! specification there, so it is stated and trusted here, once.

use vstd::prelude::*;

verus! {

/// Relies on the standard library's range indexing for mutable slices:
/// `&mut slice[i..j]` is the subslice over positions `[i, j)` of `slice`;
/// writes through it land on exactly those positions, and neither the
/// subslice nor the underlying slice can change length.
#[verifier::external_body]
fn slice_subrange_mut<T>(slice: &mut [T], i: usize, j: usize) -> (out: &mut [T])
    requires
        i <= j,
        j <= old(slice)@.len(),
    ensures
        out@ == old(slice)@.subrange(i as int, j as int),
        final(out)@.len() == j - i,
        final(slice)@ == old(slice)@.subrange(0, i as int) + final(out)@ + old(slice)@.subrange(
            j as int,
            old(slice)@.len() as int,
        ),
{
    &mut slice[i..j]
}

/// The range `[i, j)` of a vector's storage, mutable: writes through the
/// returned slice land on those positions and nothing else changes.
pub(crate) fn vec_subrange_mut<T>(v: &mut Vec<T>, i: usize, j: usize) -> (out: &mut [T])
    requires
        i <= j,
        j <= old(v)@.len(),
    ensures
        out@ == old(v)@.subrange(i as int, j as int),
        final(out)@.len() == j - i,
        final(v)@ == old(v)@.subrange(0, i as int) + final(out)@ + old(v)@.subrange(
            j as int,
            old(v)@.len() as int,
        ),
{
    let s = v.as_mut_slice();
    slice_subrange_mut(s, i, j)
}

} // verus!
