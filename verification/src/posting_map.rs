//! An owned mapping from composite key to posting bitmap.
//!
//! This is the arena-like buffer of the transactional index: it is
//! populated lazily while a transaction is open and drained on commit. It
//! also backs the in-memory keyed store. Entries are held in a vector with
//! pairwise distinct keys; the view of the whole structure is the `Map`
//! the entries stand for.

use roaring::RoaringBitmap;
use vstd::prelude::*;

use crate::bitmap::bitmap_insert;
use crate::bitmap::bitmap_remove;
use crate::bitmap::bitmap_set;
use crate::keys::key_eq;
use crate::keys::CompositeKey;
use crate::keys::CompositeKeyView;

verus! {

/// One entry: a composite key and the posting bitmap held for it.
struct PostingEntry {
    pub key: CompositeKey,
    pub bitmap: RoaringBitmap,
}

/// The mapping a sequence of entries stands for, later entries winning.
spec fn map_of_entries(s: Seq<PostingEntry>) -> Map<CompositeKeyView, Set<u32>>
    decreases s.len(),
{
    if s.len() == 0 {
        Map::empty()
    } else {
        map_of_entries(s.drop_last()).insert(s.last().key@, bitmap_set(s.last().bitmap))
    }
}

/// Whether no two entries address the same composite key.
spec fn unique_keys(s: Seq<PostingEntry>) -> bool {
    forall|i: int, j: int| 0 <= i < j < s.len() ==> (#[trigger] s[i]).key@ != (#[trigger] s[j]).key@
}

/// A key is in the mapping exactly when some entry carries it.
proof fn lemma_map_of_entries_domain(s: Seq<PostingEntry>)
    ensures
        forall|k: CompositeKeyView|
            #[trigger] map_of_entries(s).contains_key(k) <==> (exists|i: int|
                0 <= i < s.len() && (#[trigger] s[i]).key@ == k),
    decreases s.len(),
{
    if s.len() > 0 {
        lemma_map_of_entries_domain(s.drop_last());
        assert forall|k: CompositeKeyView|
            #[trigger] map_of_entries(s).contains_key(k) <==> (exists|i: int|
                0 <= i < s.len() && (#[trigger] s[i]).key@ == k) by {
            if map_of_entries(s).contains_key(k) {
                if k == s.last().key@ {
                    assert(0 <= s.len() - 1 < s.len() && s[s.len() - 1].key@ == k);
                } else {
                    assert(map_of_entries(s.drop_last()).contains_key(k));
                    let i = choose|i: int|
                        0 <= i < s.drop_last().len() && (#[trigger] s.drop_last()[i]).key@ == k;
                    assert(s.drop_last()[i] == s[i]);
                    assert(0 <= i < s.len() && s[i].key@ == k);
                }
            }
            if exists|i: int| 0 <= i < s.len() && (#[trigger] s[i]).key@ == k {
                let i = choose|i: int| 0 <= i < s.len() && (#[trigger] s[i]).key@ == k;
                if i < s.len() - 1 {
                    assert(0 <= i < s.drop_last().len() && s.drop_last()[i].key@ == k);
                    assert(map_of_entries(s.drop_last()).contains_key(k));
                }
            }
        }
    }
}

/// Under distinct keys, the mapping holds at each entry exactly that
/// entry's posting set.
proof fn lemma_map_of_entries_at(s: Seq<PostingEntry>, i: int)
    requires
        unique_keys(s),
        0 <= i < s.len(),
    ensures
        map_of_entries(s).contains_key(s[i].key@),
        map_of_entries(s)[s[i].key@] == bitmap_set(s[i].bitmap),
    decreases s.len(),
{
    if i < s.len() - 1 {
        assert(unique_keys(s.drop_last()));
        lemma_map_of_entries_at(s.drop_last(), i);
        assert(s.drop_last()[i] == s[i]);
        assert(s[i].key@ != s[s.len() - 1].key@);
    }
}

/// Replacing the entry at `i` by one with the same key updates the
/// mapping at that key alone.
proof fn lemma_map_of_entries_update(s: Seq<PostingEntry>, i: int, e: PostingEntry)
    requires
        unique_keys(s),
        0 <= i < s.len(),
        e.key@ == s[i].key@,
    ensures
        map_of_entries(s.update(i, e)) == map_of_entries(s).insert(e.key@, bitmap_set(e.bitmap)),
        unique_keys(s.update(i, e)),
    decreases s.len(),
{
    if i == s.len() - 1 {
        assert(s.update(i, e).drop_last() =~= s.drop_last());
        assert(s.update(i, e).last() == e);
        assert(map_of_entries(s.update(i, e)) =~= map_of_entries(s).insert(
            e.key@,
            bitmap_set(e.bitmap),
        ));
    } else {
        assert(unique_keys(s.drop_last()));
        lemma_map_of_entries_update(s.drop_last(), i, e);
        assert(s.update(i, e).drop_last() =~= s.drop_last().update(i, e));
        assert(s.update(i, e).last() == s.last());
        assert(s[i].key@ != s[s.len() - 1].key@);
        assert(map_of_entries(s.update(i, e)) =~= map_of_entries(s).insert(
            e.key@,
            bitmap_set(e.bitmap),
        ));
    }
    assert forall|m: int, n: int| 0 <= m < n < s.update(i, e).len() implies (#[trigger] s.update(
        i,
        e,
    )[m]).key@ != (#[trigger] s.update(i, e)[n]).key@ by {
        assert(s[m].key@ != s[n].key@);
    }
}

/// Appending an entry updates the mapping at that entry's key alone.
proof fn lemma_map_of_entries_push(s: Seq<PostingEntry>, e: PostingEntry)
    ensures
        map_of_entries(s.push(e)) == map_of_entries(s).insert(e.key@, bitmap_set(e.bitmap)),
{
    assert(s.push(e).drop_last() =~= s);
    assert(s.push(e).last() == e);
}

/// The owned, exclusively held mapping from composite key to posting
/// bitmap.
pub struct PostingMap {
    entries: Vec<PostingEntry>,
}

impl View for PostingMap {
    type V = Map<CompositeKeyView, Set<u32>>;

    closed spec fn view(&self) -> Map<CompositeKeyView, Set<u32>> {
        map_of_entries(self.entries@)
    }
}

impl PostingMap {
    /// Well-formed: no two entries address the same composite key.
    pub closed spec fn wf(&self) -> bool {
        unique_keys(self.entries@)
    }

    /// How many keys are held.
    pub closed spec fn spec_len(&self) -> nat {
        self.entries@.len()
    }

    /// The key of the entry at position `i`, for iteration.
    pub closed spec fn key_at(&self, i: int) -> CompositeKeyView {
        self.entries@[i].key@
    }

    /// The posting set of the entry at position `i`, for iteration.
    pub closed spec fn set_at(&self, i: int) -> Set<u32> {
        bitmap_set(self.entries@[i].bitmap)
    }

    /// The mapping the first `i` entries stand for.
    pub closed spec fn prefix(&self, i: int) -> Map<CompositeKeyView, Set<u32>> {
        map_of_entries(self.entries@.take(i))
    }

    /// The first zero entries stand for the empty mapping.
    pub proof fn lemma_prefix_zero(&self)
        ensures
            self.prefix(0) == Map::<CompositeKeyView, Set<u32>>::empty(),
    {
        assert(self.entries@.take(0) =~= Seq::<PostingEntry>::empty());
    }

    /// All entries together stand for the whole mapping.
    pub proof fn lemma_prefix_full(&self)
        ensures
            self.prefix(self.spec_len() as int) == self@,
    {
        assert(self.entries@.take(self.spec_len() as int) =~= self.entries@);
    }

    /// Taking one more entry extends the prefix mapping at that entry's
    /// key.
    pub proof fn lemma_prefix_step(&self, i: int)
        requires
            0 <= i < self.spec_len(),
        ensures
            self.prefix(i + 1) == self.prefix(i).insert(self.key_at(i), self.set_at(i)),
    {
        assert(self.entries@.take(i + 1).drop_last() =~= self.entries@.take(i));
        assert(self.entries@.take(i + 1).last() == self.entries@[i]);
    }

    /// Under well-formedness, the mapping holds at position `i` exactly
    /// the posting set stored there.
    pub proof fn lemma_at(&self, i: int)
        requires
            self.wf(),
            0 <= i < self.spec_len(),
        ensures
            self@.contains_key(self.key_at(i)),
            self@[self.key_at(i)] == self.set_at(i),
    {
        lemma_map_of_entries_at(self.entries@, i);
    }

    /// A fresh, empty mapping.
    pub fn new() -> (r: PostingMap)
        ensures
            r@ == Map::<CompositeKeyView, Set<u32>>::empty(),
            r.wf(),
            r.spec_len() == 0,
    {
        PostingMap { entries: Vec::new() }
    }

    /// How many keys are held.
    pub fn len(&self) -> (n: usize)
        ensures
            n == self.spec_len(),
    {
        self.entries.len()
    }

    /// The position of the entry for `key`, if one is held.
    pub fn find(&self, key: &CompositeKey) -> (r: Option<usize>)
        ensures
            match r {
                Some(i) => i < self.spec_len() && self.key_at(i as int) == key@,
                None => !self@.contains_key(key@),
            },
    {
        let n = self.entries.len();
        let mut i: usize = 0;
        while i < n
            invariant
                i <= n,
                n == self.entries@.len(),
                forall|j: int| 0 <= j < i ==> (#[trigger] self.entries@[j]).key@ != key@,
            decreases n - i,
        {
            if key_eq(&self.entries[i].key, key) {
                return Some(i);
            }
            i += 1;
        }
        proof {
            lemma_map_of_entries_domain(self.entries@);
        }
        None
    }

    /// Whether a posting set is held for `key`.
    pub fn contains_key(&self, key: &CompositeKey) -> (r: bool)
        ensures
            r == self@.contains_key(key@),
    {
        proof {
            lemma_map_of_entries_domain(self.entries@);
        }
        match self.find(key) {
            Some(_) => true,
            None => false,
        }
    }

    /// A borrow of the posting bitmap held for `key`, if any.
    pub fn get(&self, key: &CompositeKey) -> (r: Option<&RoaringBitmap>)
        requires
            self.wf(),
        ensures
            match r {
                Some(b) => self@.contains_key(key@) && bitmap_set(*b) == self@[key@],
                None => !self@.contains_key(key@),
            },
    {
        match self.find(key) {
            Some(i) => {
                proof {
                    self.lemma_at(i as int);
                }
                Some(&self.entries[i].bitmap)
            },
            None => None,
        }
    }

    /// A borrow of the key at position `i`, for iteration.
    pub fn key_ref(&self, i: usize) -> (r: &CompositeKey)
        requires
            i < self.spec_len(),
        ensures
            r@ == self.key_at(i as int),
    {
        &self.entries[i].key
    }

    /// A borrow of the posting bitmap at position `i`, for iteration.
    pub fn bitmap_ref(&self, i: usize) -> (r: &RoaringBitmap)
        requires
            i < self.spec_len(),
        ensures
            bitmap_set(*r) == self.set_at(i as int),
    {
        &self.entries[i].bitmap
    }

    /// Hold `bitmap` for `key`, replacing whatever was held before.
    pub fn insert(&mut self, key: CompositeKey, bitmap: RoaringBitmap)
        requires
            old(self).wf(),
        ensures
            final(self).wf(),
            final(self)@ == old(self)@.insert(key@, bitmap_set(bitmap)),
    {
        let r = self.find(&key);
        let e = PostingEntry { key, bitmap };
        match r {
            Some(i) => {
                proof {
                    lemma_map_of_entries_update(self.entries@, i as int, e);
                }
                let em = &mut self.entries[i];
                *em = e;
            },
            None => {
                proof {
                    let s0 = self.entries@;
                    lemma_map_of_entries_domain(s0);
                    lemma_map_of_entries_push(s0, e);
                    assert forall|m: int, n: int|
                        0 <= m < n < s0.push(e).len() implies (#[trigger] s0.push(e)[m]).key@ != (
                    #[trigger] s0.push(e)[n]).key@ by {
                        if n < s0.len() {
                            assert(s0[m].key@ != s0[n].key@);
                        } else {
                            assert(s0.push(e)[m] == s0[m]);
                            if s0[m].key@ == e.key@ {
                                assert(map_of_entries(s0).contains_key(e.key@));
                            }
                        }
                    }
                }
                self.entries.push(e);
            },
        }
    }

    /// Add `offset` to the posting set held for `key`.
    pub fn add_offset_by_key(&mut self, key: &CompositeKey, offset: u32)
        requires
            old(self).wf(),
            old(self)@.contains_key(key@),
        ensures
            final(self).wf(),
            final(self)@ == old(self)@.insert(key@, old(self)@[key@].insert(offset)),
    {
        match self.find(key) {
            Some(i) => {
                proof {
                    self.lemma_at(i as int);
                }
                self.add_offset(i, offset);
            },
            None => {
                proof {
                    assert(false);
                }
            },
        }
    }

    /// Take `offset` out of the posting set held for `key`.
    pub fn remove_offset_by_key(&mut self, key: &CompositeKey, offset: u32)
        requires
            old(self).wf(),
            old(self)@.contains_key(key@),
        ensures
            final(self).wf(),
            final(self)@ == old(self)@.insert(key@, old(self)@[key@].remove(offset)),
    {
        match self.find(key) {
            Some(i) => {
                proof {
                    self.lemma_at(i as int);
                }
                self.remove_offset(i, offset);
            },
            None => {
                proof {
                    assert(false);
                }
            },
        }
    }

    /// Add `offset` to the posting set held at position `i`.
    fn add_offset(&mut self, i: usize, offset: u32)
        requires
            old(self).wf(),
            i < old(self).spec_len(),
        ensures
            final(self).wf(),
            final(self)@ == old(self)@.insert(
                old(self).key_at(i as int),
                old(self)@[old(self).key_at(i as int)].insert(offset),
            ),
    {
        proof {
            self.lemma_at(i as int);
        }
        let em = &mut self.entries[i];
        bitmap_insert(&mut em.bitmap, offset);
        proof {
            lemma_map_of_entries_update(old(self).entries@, i as int, self.entries@[i as int]);
        }
    }

    /// Take `offset` out of the posting set held at position `i`.
    fn remove_offset(&mut self, i: usize, offset: u32)
        requires
            old(self).wf(),
            i < old(self).spec_len(),
        ensures
            final(self).wf(),
            final(self)@ == old(self)@.insert(
                old(self).key_at(i as int),
                old(self)@[old(self).key_at(i as int)].remove(offset),
            ),
    {
        proof {
            self.lemma_at(i as int);
        }
        let em = &mut self.entries[i];
        bitmap_remove(&mut em.bitmap, offset);
        proof {
            lemma_map_of_entries_update(old(self).entries@, i as int, self.entries@[i as int]);
        }
    }

    /// Drop every entry.
    pub fn clear(&mut self)
        ensures
            final(self)@ == Map::<CompositeKeyView, Set<u32>>::empty(),
            final(self).wf(),
            final(self).spec_len() == 0,
    {
        self.entries.clear();
    }
}

} // verus!
