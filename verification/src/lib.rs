//! A transactional secondary index from (field name, typed scalar value)
//! pairs to posting sets of document offsets, backed by an ordered keyed
//! store.
//!
//! Callers open a transaction on the index, stage any number of `set` and
//! `delete` calls — each working copy seeded lazily from committed state
//! on the first touch of its composite key — then commit, which flushes
//! the staging buffer to the keyed store. Reads bypass the buffer, only
//! ever observe the last committed state, and are rejected while a
//! transaction is open. Every operation's behaviour, and the laws the
//! protocol obeys, are stated in contracts and proved.

mod bitmap;
mod blockfile;
mod errors;
mod index;
mod keys;
mod laws;
mod ordering;
mod posting_map;

pub use bitmap::bitmap_set;
pub use blockfile::Blockfile;
pub use blockfile::MemoryBlockfile;
pub use errors::ErrorCodes;
pub use errors::MetadataIndexError;
pub use errors::StoreError;
pub use index::addressed_key;
pub use index::committed_after_commit;
pub use index::effective_set;
pub use index::seed_set;
pub use index::staged_after_delete;
pub use index::staged_after_set;
pub use index::BlockfileMetadataIndex;
pub use keys::key_eq;
pub use keys::kv_to_blockfile_key;
pub use keys::lemma_composite_key_injective;
pub use keys::value_eq;
pub use keys::CompositeKey;
pub use keys::CompositeKeyView;
pub use keys::MetadataIndexValue;
pub use keys::MetadataValueView;
pub use laws::lemma_delete_fresh_is_noop;
pub use laws::lemma_distinct_keys_isolated;
pub use laws::lemma_set_delete_set_commits_singleton;
pub use laws::lemma_set_idempotent;
pub use laws::lemma_set_then_commit_reads_back;
pub use laws::lemma_set_then_delete_commits_empty;
pub use ordering::key_le;
pub use ordering::lemma_key_le_antisymmetric;
pub use ordering::lemma_key_le_total;
pub use ordering::lemma_key_le_transitive;
pub use ordering::text_le;
pub use ordering::value_le;
