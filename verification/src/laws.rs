//! Laws of the mutation/read protocol.
//!
//! Each law below is stated over the same spec functions that the
//! executable operations' contracts use (`staged_after_set`,
//! `staged_after_delete`, `committed_after_commit`), so it speaks of every
//! run of `begin; mutations; commit; get` on an index whose key has the
//! assumed committed state. `committed_after_commit(c, st)[k]` is exactly
//! what a `get` reads back after the commit, by the contracts of
//! `commit_transaction` and `get`.

use vstd::prelude::*;

use crate::index::committed_after_commit;
use crate::index::effective_set;
use crate::index::staged_after_delete;
use crate::index::staged_after_set;
use crate::keys::CompositeKeyView;

verus! {

/// A set followed by a commit is visible: under a key with no committed
/// posting set, staging one offset and committing leaves for that key
/// exactly the posting set holding that offset — cardinality 1.
pub proof fn lemma_set_then_commit_reads_back(
    c: Map<CompositeKeyView, Set<u32>>,
    k: CompositeKeyView,
    o: u32,
)
    requires
        !c.contains_key(k),
    ensures
        ({
            let c2 = committed_after_commit(c, staged_after_set(c, Map::empty(), k, o));
            &&& c2.contains_key(k)
            &&& c2[k] == Set::<u32>::empty().insert(o)
            &&& c2[k].contains(o)
            &&& c2[k].len() == 1
        }),
{
    let st = staged_after_set(c, Map::empty(), k, o);
    assert(st[k] =~= Set::<u32>::empty().insert(o));
}

/// Duplicate inserts have no effect: staging the same offset twice under
/// one key leaves exactly the staging buffer of staging it once, whatever
/// was committed or staged before.
pub proof fn lemma_set_idempotent(
    c: Map<CompositeKeyView, Set<u32>>,
    st: Map<CompositeKeyView, Set<u32>>,
    k: CompositeKeyView,
    o: u32,
)
    ensures
        staged_after_set(c, staged_after_set(c, st, k, o), k, o) == staged_after_set(c, st, k, o),
{
    let st1 = staged_after_set(c, st, k, o);
    assert(effective_set(c, st1, k).insert(o) =~= effective_set(c, st1, k));
    assert(staged_after_set(c, st1, k, o) =~= st1);
}

/// Within one transaction a delete undoes a set: under a key with no
/// committed posting set, staging an offset, unstaging it and committing
/// leaves an empty posting set for that key — present with cardinality 0,
/// not absent.
pub proof fn lemma_set_then_delete_commits_empty(
    c: Map<CompositeKeyView, Set<u32>>,
    k: CompositeKeyView,
    o: u32,
)
    requires
        !c.contains_key(k),
    ensures
        ({
            let st = staged_after_delete(c, staged_after_set(c, Map::empty(), k, o), k, o);
            let c2 = committed_after_commit(c, st);
            &&& c2.contains_key(k)
            &&& c2[k] == Set::<u32>::empty()
            &&& c2[k].len() == 0
        }),
{
    let st1 = staged_after_set(c, Map::empty(), k, o);
    let st2 = staged_after_delete(c, st1, k, o);
    assert(st2[k] =~= Set::<u32>::empty());
}

/// A set after a delete restores the offset: under a key with no
/// committed posting set, set, delete, set of one offset and a commit
/// leave exactly the posting set holding that offset — cardinality 1.
pub proof fn lemma_set_delete_set_commits_singleton(
    c: Map<CompositeKeyView, Set<u32>>,
    k: CompositeKeyView,
    o: u32,
)
    requires
        !c.contains_key(k),
    ensures
        ({
            let st1 = staged_after_set(c, Map::empty(), k, o);
            let st2 = staged_after_delete(c, st1, k, o);
            let st3 = staged_after_set(c, st2, k, o);
            let c2 = committed_after_commit(c, st3);
            &&& c2.contains_key(k)
            &&& c2[k] == Set::<u32>::empty().insert(o)
            &&& c2[k].contains(o)
            &&& c2[k].len() == 1
        }),
{
    let st1 = staged_after_set(c, Map::empty(), k, o);
    let st2 = staged_after_delete(c, st1, k, o);
    let st3 = staged_after_set(c, st2, k, o);
    assert(st3[k] =~= Set::<u32>::empty().insert(o));
}

/// Deleting an offset never staged or committed is a no-op, not an
/// error: under a key with no committed posting set, a lone delete and a
/// commit leave an empty posting set for that key — cardinality 0.
pub proof fn lemma_delete_fresh_is_noop(
    c: Map<CompositeKeyView, Set<u32>>,
    k: CompositeKeyView,
    o: u32,
)
    requires
        !c.contains_key(k),
    ensures
        ({
            let c2 = committed_after_commit(c, staged_after_delete(c, Map::empty(), k, o));
            &&& c2.contains_key(k)
            &&& c2[k] == Set::<u32>::empty()
            &&& c2[k].len() == 0
        }),
{
    let st = staged_after_delete(c, Map::empty(), k, o);
    assert(st[k] =~= Set::<u32>::empty());
}

/// Distinct composite keys are isolated: two sets under different keys in
/// one transaction commit two singleton posting sets, each holding only
/// its own offset. With the injective key encoding this covers both
/// distinct field names under one value and distinct values under one
/// field name.
pub proof fn lemma_distinct_keys_isolated(
    c: Map<CompositeKeyView, Set<u32>>,
    k1: CompositeKeyView,
    k2: CompositeKeyView,
    o1: u32,
    o2: u32,
)
    requires
        k1 != k2,
        !c.contains_key(k1),
        !c.contains_key(k2),
    ensures
        ({
            let st = staged_after_set(c, staged_after_set(c, Map::empty(), k1, o1), k2, o2);
            let c2 = committed_after_commit(c, st);
            &&& c2.contains_key(k1) && c2[k1] == Set::<u32>::empty().insert(o1) && c2[k1].len()
                == 1
            &&& c2.contains_key(k2) && c2[k2] == Set::<u32>::empty().insert(o2) && c2[k2].len()
                == 1
        }),
{
    let st1 = staged_after_set(c, Map::empty(), k1, o1);
    let st2 = staged_after_set(c, st1, k2, o2);
    assert(st1[k1] =~= Set::<u32>::empty().insert(o1));
    assert(st2[k2] =~= Set::<u32>::empty().insert(o2));
    assert(st2[k1] == st1[k1]);
}

} // verus!
