//! Trusted surface over the compressed-bitmap crate.
//!
//! A posting set is held as a `roaring::RoaringBitmap`. Its representation
//! is opaque here; the contracts below speak of the set of offsets it
//! holds, named by `bitmap_set`.

use roaring::RoaringBitmap;
use vstd::prelude::*;

verus! {

#[verifier::external_type_specification]
#[verifier::external_body]
pub struct ExRoaringBitmap(RoaringBitmap);

/// The set of offset ids a posting bitmap holds.
pub uninterp spec fn bitmap_set(b: RoaringBitmap) -> Set<u32>;

/// Relies on roaring::RoaringBitmap::new: a fresh bitmap holds nothing.
#[verifier::external_body]
pub(crate) fn bitmap_new() -> (r: RoaringBitmap)
    ensures
        bitmap_set(r) == Set::<u32>::empty(),
{
    RoaringBitmap::new()
}

/// Relies on roaring::RoaringBitmap::insert: afterwards the bitmap holds
/// `value` and everything it held before; the result says whether `value`
/// was new.
#[verifier::external_body]
pub(crate) fn bitmap_insert(b: &mut RoaringBitmap, value: u32) -> (r: bool)
    ensures
        bitmap_set(*final(b)) == bitmap_set(*old(b)).insert(value),
        r == !bitmap_set(*old(b)).contains(value),
{
    b.insert(value)
}

/// Relies on roaring::RoaringBitmap::remove: afterwards the bitmap holds
/// everything it held before except `value`; the result says whether
/// `value` was present.
#[verifier::external_body]
pub(crate) fn bitmap_remove(b: &mut RoaringBitmap, value: u32) -> (r: bool)
    ensures
        bitmap_set(*final(b)) == bitmap_set(*old(b)).remove(value),
        r == bitmap_set(*old(b)).contains(value),
{
    b.remove(value)
}

/// Relies on roaring::RoaringBitmap::clone: the copy holds exactly the
/// offsets of the original.
#[verifier::external_body]
pub(crate) fn bitmap_clone(b: &RoaringBitmap) -> (r: RoaringBitmap)
    ensures
        bitmap_set(r) == bitmap_set(*b),
{
    b.clone()
}

} // verus!
