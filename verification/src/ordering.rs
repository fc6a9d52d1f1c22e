//! The total order on composite keys.
//!
//! The keyed store backing the index is ordered: to place and retrieve
//! keys deterministically it needs the composite keys to admit a total
//! order. The order below is lexicographic — field name first, then the
//! typed value, kinds apart and payloads within one kind — and the laws
//! at the bottom prove it total, antisymmetric and transitive.

use vstd::prelude::*;

use crate::keys::CompositeKeyView;
use crate::keys::MetadataValueView;

verus! {

/// Lexicographic order on text, by character code, a prefix before its
/// extensions.
pub open spec fn text_le(a: Seq<char>, b: Seq<char>) -> bool
    decreases a.len(),
{
    if a.len() == 0 {
        true
    } else if b.len() == 0 {
        false
    } else if a[0] == b[0] {
        text_le(a.skip(1), b.skip(1))
    } else {
        a[0] < b[0]
    }
}

proof fn lemma_text_le_total(a: Seq<char>, b: Seq<char>)
    ensures
        text_le(a, b) || text_le(b, a),
    decreases a.len(),
{
    if a.len() == 0 {
        assert(text_le(a, b));
    } else if b.len() == 0 {
        assert(text_le(b, a));
    } else if a[0] == b[0] {
        lemma_text_le_total(a.skip(1), b.skip(1));
    }
}

proof fn lemma_text_le_antisymmetric(a: Seq<char>, b: Seq<char>)
    requires
        text_le(a, b),
        text_le(b, a),
    ensures
        a == b,
    decreases a.len(),
{
    if a.len() == 0 {
        assert(b.len() == 0);
        assert(a =~= b);
    } else {
        assert(b.len() > 0);
        assert(a[0] == b[0]);
        lemma_text_le_antisymmetric(a.skip(1), b.skip(1));
        assert(a.skip(1).len() == b.skip(1).len());
        assert(a.len() == b.len());
        assert forall|i: int| 0 <= i < a.len() implies a[i] == b[i] by {
            if i >= 1 {
                assert(a.skip(1)[i - 1] == a[i]);
                assert(b.skip(1)[i - 1] == b[i]);
            }
        }
        assert(a =~= b);
    }
}

proof fn lemma_text_le_transitive(a: Seq<char>, b: Seq<char>, c: Seq<char>)
    requires
        text_le(a, b),
        text_le(b, c),
    ensures
        text_le(a, c),
    decreases a.len(),
{
    if a.len() > 0 && b.len() > 0 && c.len() > 0 && a[0] == b[0] && b[0] == c[0] {
        lemma_text_le_transitive(a.skip(1), b.skip(1), c.skip(1));
    }
}

/// The order of two typed scalar values: by kind first — text before
/// float before boolean — then by payload within one kind.
pub open spec fn value_le(a: MetadataValueView, b: MetadataValueView) -> bool {
    match (a, b) {
        (MetadataValueView::String(x), MetadataValueView::String(y)) => text_le(x, y),
        (MetadataValueView::String(_), _) => true,
        (_, MetadataValueView::String(_)) => false,
        (MetadataValueView::Float(x), MetadataValueView::Float(y)) => x <= y,
        (MetadataValueView::Float(_), _) => true,
        (_, MetadataValueView::Float(_)) => false,
        (MetadataValueView::Bool(x), MetadataValueView::Bool(y)) => !x || y,
    }
}

proof fn lemma_value_le_total(a: MetadataValueView, b: MetadataValueView)
    ensures
        value_le(a, b) || value_le(b, a),
{
    if let (MetadataValueView::String(x), MetadataValueView::String(y)) = (a, b) {
        lemma_text_le_total(x, y);
    }
}

proof fn lemma_value_le_antisymmetric(a: MetadataValueView, b: MetadataValueView)
    requires
        value_le(a, b),
        value_le(b, a),
    ensures
        a == b,
{
    if let (MetadataValueView::String(x), MetadataValueView::String(y)) = (a, b) {
        lemma_text_le_antisymmetric(x, y);
    }
}

proof fn lemma_value_le_transitive(a: MetadataValueView, b: MetadataValueView, c: MetadataValueView)
    requires
        value_le(a, b),
        value_le(b, c),
    ensures
        value_le(a, c),
{
    if let (
        MetadataValueView::String(x),
        MetadataValueView::String(y),
        MetadataValueView::String(z),
    ) = (a, b, c) {
        lemma_text_le_transitive(x, y, z);
    }
}

/// The order of two composite keys: by field name first, then by typed
/// value under one field name.
pub open spec fn key_le(a: CompositeKeyView, b: CompositeKeyView) -> bool {
    if a.field_name == b.field_name {
        value_le(a.value, b.value)
    } else {
        text_le(a.field_name, b.field_name)
    }
}

/// Composite keys are totally ordered: of any two, one comes no later
/// than the other.
pub proof fn lemma_key_le_total(a: CompositeKeyView, b: CompositeKeyView)
    ensures
        key_le(a, b) || key_le(b, a),
{
    if a.field_name == b.field_name {
        lemma_value_le_total(a.value, b.value);
    } else {
        lemma_text_le_total(a.field_name, b.field_name);
    }
}

/// The order is antisymmetric: two composite keys each no later than the
/// other are the same key, so the store's placement never conflates
/// distinct keys.
pub proof fn lemma_key_le_antisymmetric(a: CompositeKeyView, b: CompositeKeyView)
    requires
        key_le(a, b),
        key_le(b, a),
    ensures
        a == b,
{
    if a.field_name == b.field_name {
        lemma_value_le_antisymmetric(a.value, b.value);
    } else {
        lemma_text_le_antisymmetric(a.field_name, b.field_name);
    }
}

/// The order is transitive.
pub proof fn lemma_key_le_transitive(
    a: CompositeKeyView,
    b: CompositeKeyView,
    c: CompositeKeyView,
)
    requires
        key_le(a, b),
        key_le(b, c),
    ensures
        key_le(a, c),
{
    if a.field_name == b.field_name && b.field_name == c.field_name {
        lemma_value_le_transitive(a.value, b.value, c.value);
    } else if a.field_name != b.field_name && b.field_name != c.field_name {
        lemma_text_le_transitive(a.field_name, b.field_name, c.field_name);
        if a.field_name == c.field_name {
            lemma_text_le_antisymmetric(a.field_name, b.field_name);
        }
    }
}

} // verus!
