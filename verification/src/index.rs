//! The transactional metadata index.
//!
//! One index instance wraps one keyed store, a transaction flag and a
//! staging buffer. Mutations are staged while a transaction is open, each
//! key's buffer entry seeded from committed state on first touch; commit
//! flushes every staged pair to the store and clears the buffer; reads
//! bypass the buffer and are rejected while a transaction is open, so they
//! only ever observe the last committed state.
//!
//! Once a transaction is open the only way to end it is a commit: there is
//! no abort, and staged mutations cannot be discarded.

use roaring::RoaringBitmap;
use vstd::prelude::*;

use crate::bitmap::bitmap_clone;
use crate::bitmap::bitmap_new;
use crate::bitmap::bitmap_set;
use crate::blockfile::Blockfile;
use crate::errors::MetadataIndexError;
use crate::keys::kv_to_blockfile_key;
use crate::keys::CompositeKey;
use crate::keys::CompositeKeyView;
use crate::keys::MetadataIndexValue;
use crate::keys::MetadataValueView;
use crate::posting_map::PostingMap;

verus! {

/// The composite-key view that a field name and a typed value address.
pub open spec fn addressed_key(key: Seq<char>, value: MetadataValueView) -> CompositeKeyView {
    CompositeKeyView { field_name: key, value }
}

/// The posting set committed for `k`, or the empty set if `k` has never
/// been committed: what the first touch of `k` in a transaction seeds the
/// staging buffer with.
pub open spec fn seed_set(
    committed: Map<CompositeKeyView, Set<u32>>,
    k: CompositeKeyView,
) -> Set<u32> {
    if committed.contains_key(k) {
        committed[k]
    } else {
        Set::empty()
    }
}

/// The posting set a mutation of `k` works on: the staged set if `k` was
/// already touched in this transaction, else the seed from committed
/// state. Committed state is never re-read for a key already staged.
pub open spec fn effective_set(
    committed: Map<CompositeKeyView, Set<u32>>,
    staged: Map<CompositeKeyView, Set<u32>>,
    k: CompositeKeyView,
) -> Set<u32> {
    if staged.contains_key(k) {
        staged[k]
    } else {
        seed_set(committed, k)
    }
}

/// The staging buffer after a `set` of `offset` under `k`.
pub open spec fn staged_after_set(
    committed: Map<CompositeKeyView, Set<u32>>,
    staged: Map<CompositeKeyView, Set<u32>>,
    k: CompositeKeyView,
    offset: u32,
) -> Map<CompositeKeyView, Set<u32>> {
    staged.insert(k, effective_set(committed, staged, k).insert(offset))
}

/// The staging buffer after a `delete` of `offset` under `k`.
pub open spec fn staged_after_delete(
    committed: Map<CompositeKeyView, Set<u32>>,
    staged: Map<CompositeKeyView, Set<u32>>,
    k: CompositeKeyView,
    offset: u32,
) -> Map<CompositeKeyView, Set<u32>> {
    staged.insert(k, effective_set(committed, staged, k).remove(offset))
}

/// The committed contents after a commit: every staged pair replaces the
/// committed posting set for its key, untouched keys keep theirs.
pub open spec fn committed_after_commit(
    committed: Map<CompositeKeyView, Set<u32>>,
    staged: Map<CompositeKeyView, Set<u32>>,
) -> Map<CompositeKeyView, Set<u32>> {
    committed.union_prefer_right(staged)
}

/// The transactional metadata index over a keyed store `B`.
pub struct BlockfileMetadataIndex<B: Blockfile> {
    blockfile: B,
    in_transaction: bool,
    uncommitted_rbms: PostingMap,
}

impl<B: Blockfile> BlockfileMetadataIndex<B> {
    /// Whether a transaction is open on this index.
    pub closed spec fn is_in_transaction(&self) -> bool {
        self.in_transaction
    }

    /// The committed contents, as held by the keyed store.
    pub closed spec fn committed(&self) -> Map<CompositeKeyView, Set<u32>> {
        self.blockfile.contents()
    }

    /// The staging buffer: the working copy of every key touched in the
    /// current transaction.
    pub closed spec fn staged(&self) -> Map<CompositeKeyView, Set<u32>> {
        self.uncommitted_rbms@
    }

    /// Valid: the store's and the buffer's own invariants hold, and the
    /// buffer is empty whenever no transaction is open.
    pub closed spec fn wf(&self) -> bool {
        &&& self.blockfile.inv()
        &&& self.uncommitted_rbms.wf()
        &&& !self.in_transaction ==> self.staged() == Map::<CompositeKeyView, Set<u32>>::empty()
    }

    /// A fresh index around an existing or freshly created keyed store:
    /// no transaction open, nothing staged.
    pub fn new(init_blockfile: B) -> (r: Self)
        requires
            init_blockfile.inv(),
        ensures
            r.wf(),
            !r.is_in_transaction(),
            r.committed() == init_blockfile.contents(),
            r.staged() == Map::<CompositeKeyView, Set<u32>>::empty(),
    {
        BlockfileMetadataIndex {
            blockfile: init_blockfile,
            in_transaction: false,
            uncommitted_rbms: PostingMap::new(),
        }
    }

    /// Seed the staging buffer for `key` on its first touch in this
    /// transaction: from the committed posting set, or from an empty one
    /// if the key has never been committed. A key already staged is left
    /// exactly as it is.
    fn look_up_key_and_populate_uncommitted_rbms(&mut self, key: &CompositeKey)
        requires
            old(self).wf(),
            old(self).is_in_transaction(),
        ensures
            final(self).wf(),
            final(self).is_in_transaction() == old(self).is_in_transaction(),
            final(self).committed() == old(self).committed(),
            final(self).staged() == old(self).staged().insert(
                key@,
                effective_set(old(self).committed(), old(self).staged(), key@),
            ),
    {
        if !self.uncommitted_rbms.contains_key(key) {
            let seeded = match self.blockfile.get(key) {
                Ok(rbm) => rbm,
                Err(_) => bitmap_new(),
            };
            self.uncommitted_rbms.insert(key.duplicate(), seeded);
        } else {
            proof {
                assert(old(self).staged().insert(key@, old(self).staged()[key@]) =~= old(self).staged());
            }
        }
    }

    /// Open a transaction: fails with `InTransaction` exactly when one is
    /// already open; otherwise opens one on the keyed store, whose own
    /// failure is passed through with the flag left closed. Committed and
    /// staged state are untouched either way.
    pub fn begin_transaction(&mut self) -> (r: Result<(), MetadataIndexError>)
        requires
            old(self).wf(),
        ensures
            final(self).wf(),
            final(self).committed() == old(self).committed(),
            final(self).staged() == old(self).staged(),
            match r {
                Ok(()) => !old(self).is_in_transaction() && final(self).is_in_transaction(),
                Err(MetadataIndexError::InTransaction) => old(self).is_in_transaction() && final(self).is_in_transaction(),
                Err(MetadataIndexError::Store(_)) => !old(self).is_in_transaction() && !final(self).is_in_transaction(),
                Err(_) => false,
            },
    {
        if self.in_transaction {
            return Err(MetadataIndexError::InTransaction);
        }
        match self.blockfile.begin_transaction() {
            Ok(()) => {
                self.in_transaction = true;
                Ok(())
            },
            Err(e) => Err(MetadataIndexError::Store(e)),
        }
    }

    /// Flush the staging buffer and close the transaction: fails with
    /// `NotInTransaction` exactly when none is open. Otherwise every
    /// staged pair is written to the keyed store, replacing whatever was
    /// committed for its key; then the store's own commit runs. If that
    /// commit fails, its error is passed through with the writes already
    /// applied, the buffer intact and the transaction still open; on
    /// success the buffer is cleared and the transaction closed.
    pub fn commit_transaction(&mut self) -> (r: Result<(), MetadataIndexError>)
        requires
            old(self).wf(),
        ensures
            final(self).wf(),
            match r {
                Ok(()) => old(self).is_in_transaction() && !final(self).is_in_transaction()
                    && final(self).committed() == committed_after_commit(
                    old(self).committed(),
                    old(self).staged(),
                ) && final(self).staged() == Map::<CompositeKeyView, Set<u32>>::empty(),
                Err(MetadataIndexError::NotInTransaction) => !old(self).is_in_transaction()
                    && !final(self).is_in_transaction() && final(self).committed() == old(self).committed() && final(self).staged() == old(self).staged(),
                Err(MetadataIndexError::Store(_)) => old(self).is_in_transaction() && final(self).is_in_transaction() && final(self).committed() == committed_after_commit(
                    old(self).committed(),
                    old(self).staged(),
                ) && final(self).staged() == old(self).staged(),
                Err(_) => false,
            },
    {
        if !self.in_transaction {
            return Err(MetadataIndexError::NotInTransaction);
        }
        let n = self.uncommitted_rbms.len();
        let mut i: usize = 0;
        proof {
            self.uncommitted_rbms.lemma_prefix_zero();
            assert(self.blockfile.contents() =~= old(self).committed().union_prefer_right(
                self.uncommitted_rbms.prefix(0),
            ));
        }
        while i < n
            invariant
                i <= n,
                n == self.uncommitted_rbms.spec_len(),
                self.uncommitted_rbms == old(self).uncommitted_rbms,
                self.in_transaction,
                self.blockfile.inv(),
                self.uncommitted_rbms.wf(),
                self.blockfile.contents() == old(self).committed().union_prefer_right(
                    self.uncommitted_rbms.prefix(i as int),
                ),
            decreases n - i,
        {
            let k = self.uncommitted_rbms.key_ref(i).duplicate();
            let b = bitmap_clone(self.uncommitted_rbms.bitmap_ref(i));
            proof {
                self.uncommitted_rbms.lemma_prefix_step(i as int);
                assert(self.blockfile.contents().insert(
                    self.uncommitted_rbms.key_at(i as int),
                    self.uncommitted_rbms.set_at(i as int),
                ) =~= old(self).committed().union_prefer_right(
                    self.uncommitted_rbms.prefix(i as int + 1),
                ));
            }
            self.blockfile.set(k, b);
            i += 1;
        }
        proof {
            self.uncommitted_rbms.lemma_prefix_full();
        }
        match self.blockfile.commit_transaction() {
            Ok(()) => {
                self.uncommitted_rbms.clear();
                self.in_transaction = false;
                Ok(())
            },
            Err(e) => Err(MetadataIndexError::Store(e)),
        }
    }

    /// Stage the insertion of `offset_id` into the posting set for
    /// (`key`, `value`): fails with `NotInTransaction` exactly when no
    /// transaction is open. Inserting an offset already present is a
    /// no-op, never an error. Committed state is untouched.
    pub fn set(&mut self, key: &str, value: MetadataIndexValue, offset_id: usize) -> (r: Result<
        (),
        MetadataIndexError,
    >)
        requires
            old(self).wf(),
            offset_id <= u32::MAX as usize,
        ensures
            final(self).wf(),
            final(self).committed() == old(self).committed(),
            final(self).is_in_transaction() == old(self).is_in_transaction(),
            match r {
                Ok(()) => old(self).is_in_transaction() && final(self).staged()
                    == staged_after_set(
                    old(self).committed(),
                    old(self).staged(),
                    addressed_key(key@, value@),
                    offset_id as u32,
                ),
                Err(MetadataIndexError::NotInTransaction) => !old(self).is_in_transaction()
                    && final(self).staged() == old(self).staged(),
                Err(_) => false,
            },
    {
        if !self.in_transaction {
            return Err(MetadataIndexError::NotInTransaction);
        }
        let blockfilekey = kv_to_blockfile_key(key, value);
        self.look_up_key_and_populate_uncommitted_rbms(&blockfilekey);
        self.uncommitted_rbms.add_offset_by_key(&blockfilekey, offset_id as u32);
        proof {
            assert(self.staged() =~= staged_after_set(
                old(self).committed(),
                old(self).staged(),
                blockfilekey@,
                offset_id as u32,
            ));
        }
        Ok(())
    }

    /// Stage the removal of `offset_id` from the posting set for
    /// (`key`, `value`): fails with `NotInTransaction` exactly when no
    /// transaction is open. Removing an offset not present — including
    /// under a key that was never staged or committed — is a no-op, never
    /// an error. Committed state is untouched.
    pub fn delete(&mut self, key: &str, value: MetadataIndexValue, offset_id: usize) -> (r: Result<
        (),
        MetadataIndexError,
    >)
        requires
            old(self).wf(),
            offset_id <= u32::MAX as usize,
        ensures
            final(self).wf(),
            final(self).committed() == old(self).committed(),
            final(self).is_in_transaction() == old(self).is_in_transaction(),
            match r {
                Ok(()) => old(self).is_in_transaction() && final(self).staged()
                    == staged_after_delete(
                    old(self).committed(),
                    old(self).staged(),
                    addressed_key(key@, value@),
                    offset_id as u32,
                ),
                Err(MetadataIndexError::NotInTransaction) => !old(self).is_in_transaction()
                    && final(self).staged() == old(self).staged(),
                Err(_) => false,
            },
    {
        if !self.in_transaction {
            return Err(MetadataIndexError::NotInTransaction);
        }
        let blockfilekey = kv_to_blockfile_key(key, value);
        self.look_up_key_and_populate_uncommitted_rbms(&blockfilekey);
        self.uncommitted_rbms.remove_offset_by_key(&blockfilekey, offset_id as u32);
        proof {
            assert(self.staged() =~= staged_after_delete(
                old(self).committed(),
                old(self).staged(),
                blockfilekey@,
                offset_id as u32,
            ));
        }
        Ok(())
    }

    /// Read the committed posting set for (`key`, `value`): fails with
    /// `InTransaction` exactly when a transaction is open — reads only
    /// ever observe the last committed state — and with `NotFoundError`
    /// exactly when the key has never been committed. Otherwise a copy of
    /// the committed posting set is returned.
    pub fn get(&self, key: &str, value: MetadataIndexValue) -> (r: Result<
        RoaringBitmap,
        MetadataIndexError,
    >)
        requires
            self.wf(),
        ensures
            match r {
                Ok(b) => !self.is_in_transaction() && self.committed().contains_key(
                    addressed_key(key@, value@),
                ) && bitmap_set(b) == self.committed()[addressed_key(key@, value@)],
                Err(MetadataIndexError::InTransaction) => self.is_in_transaction(),
                Err(MetadataIndexError::NotFoundError) => !self.is_in_transaction()
                    && !self.committed().contains_key(addressed_key(key@, value@)),
                Err(_) => false,
            },
    {
        if self.in_transaction {
            return Err(MetadataIndexError::InTransaction);
        }
        let blockfilekey = kv_to_blockfile_key(key, value);
        match self.blockfile.get(&blockfilekey) {
            Ok(rbm) => Ok(rbm),
            Err(_) => Err(MetadataIndexError::NotFoundError),
        }
    }
}

} // verus!
