//! The keyed-store collaborator.
//!
//! The index is backed by an ordered key-to-value store exposed through
//! the minimal contract below: get, set, begin and commit. Its on-disk
//! layout, durability and own transaction machinery are out of scope here;
//! what this layer relies on is stated in the trait's contracts. An
//! in-memory store is provided as the one concrete implementation, usable
//! as a backing store and as a test double.

use roaring::RoaringBitmap;
use vstd::prelude::*;
use vstd::string::StringExecFns;

use crate::bitmap::bitmap_clone;
use crate::bitmap::bitmap_set;
use crate::errors::StoreError;
use crate::keys::CompositeKey;
use crate::keys::CompositeKeyView;
use crate::posting_map::PostingMap;

verus! {

/// The minimal contract of the keyed store backing the index: an ordered
/// composite-key to posting-set store with get, set and its own
/// begin/commit pair. A failure of the store is reported as a
/// `StoreError` and passed through to the index's caller unchanged.
pub trait Blockfile: Sized {
    /// The store's own validity condition; every operation keeps it.
    spec fn inv(&self) -> bool;

    /// The committed composite-key to posting-set contents.
    spec fn contents(&self) -> Map<CompositeKeyView, Set<u32>>;

    /// The posting set stored for `key`; fails exactly when the key holds
    /// nothing.
    fn get(&self, key: &CompositeKey) -> (r: Result<RoaringBitmap, StoreError>)
        requires
            self.inv(),
        ensures
            match r {
                Ok(b) => self.contents().contains_key(key@) && bitmap_set(b)
                    == self.contents()[key@],
                Err(_) => !self.contents().contains_key(key@),
            },
    ;

    /// Replace (or create) the stored posting set for `key`: the written
    /// set becomes the entire value for that key.
    fn set(&mut self, key: CompositeKey, value: RoaringBitmap)
        requires
            old(self).inv(),
        ensures
            final(self).inv(),
            final(self).contents() == old(self).contents().insert(key@, bitmap_set(value)),
    ;

    /// Open a transaction on the store; the visible contents are
    /// unchanged whatever the outcome.
    fn begin_transaction(&mut self) -> (r: Result<(), StoreError>)
        requires
            old(self).inv(),
        ensures
            final(self).inv(),
            final(self).contents() == old(self).contents(),
    ;

    /// Durably persist every write since the last begin; the visible
    /// contents are unchanged whatever the outcome.
    fn commit_transaction(&mut self) -> (r: Result<(), StoreError>)
        requires
            old(self).inv(),
        ensures
            final(self).inv(),
            final(self).contents() == old(self).contents(),
    ;
}

/// An in-memory keyed store: every write is immediately visible, and
/// begin/commit never fail. Durability is out of its scope.
pub struct MemoryBlockfile {
    records: PostingMap,
}

impl MemoryBlockfile {
    /// A fresh store holding nothing.
    pub fn new() -> (r: MemoryBlockfile)
        ensures
            r.inv(),
            r.contents() == Map::<CompositeKeyView, Set<u32>>::empty(),
    {
        MemoryBlockfile { records: PostingMap::new() }
    }
}

impl Blockfile for MemoryBlockfile {
    closed spec fn inv(&self) -> bool {
        self.records.wf()
    }

    closed spec fn contents(&self) -> Map<CompositeKeyView, Set<u32>> {
        self.records@
    }

    fn get(&self, key: &CompositeKey) -> (r: Result<RoaringBitmap, StoreError>) {
        match self.records.get(key) {
            Some(b) => Ok(bitmap_clone(b)),
            None => Err(
                StoreError { message: String::from_str("no value stored for this key") },
            ),
        }
    }

    fn set(&mut self, key: CompositeKey, value: RoaringBitmap) {
        self.records.insert(key, value);
    }

    fn begin_transaction(&mut self) -> (r: Result<(), StoreError>) {
        Ok(())
    }

    fn commit_transaction(&mut self) -> (r: Result<(), StoreError>) {
        Ok(())
    }
}

} // verus!
