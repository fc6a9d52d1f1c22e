//! Typed scalar values and the composite keys built from them.
//!
//! A composite key pairs a field name with a typed scalar value and
//! addresses exactly one posting set. Two composite keys are equal iff both
//! components are equal; the encoding is injective, so distinct field names
//! never collide even for identical values.
//!
//! A floating-point value is carried as the bit pattern of its IEEE-754
//! single-precision representation, so that equality of values is plain
//! equality of payloads.

use vstd::prelude::*;
use vstd::string::StringExecFns;

verus! {

/// A typed scalar value: the lookup argument of the index and the second
/// component of every composite key. A closed set of exactly three kinds,
/// with no coercion across kinds.
pub enum MetadataIndexValue {
    /// Arbitrary text.
    String(String),
    /// The bit pattern of an IEEE-754 single-precision number.
    Float(u32),
    /// A boolean.
    Bool(bool),
}

/// The mathematical value of a typed scalar.
pub enum MetadataValueView {
    String(Seq<char>),
    Float(u32),
    Bool(bool),
}

impl View for MetadataIndexValue {
    type V = MetadataValueView;

    open spec fn view(&self) -> MetadataValueView {
        match self {
            MetadataIndexValue::String(s) => MetadataValueView::String(s@),
            MetadataIndexValue::Float(bits) => MetadataValueView::Float(*bits),
            MetadataIndexValue::Bool(b) => MetadataValueView::Bool(*b),
        }
    }
}

impl MetadataIndexValue {
    /// An owned copy with the same mathematical value.
    pub fn duplicate(&self) -> (r: MetadataIndexValue)
        ensures
            r@ == self@,
    {
        match self {
            MetadataIndexValue::String(s) => MetadataIndexValue::String(s.clone()),
            MetadataIndexValue::Float(bits) => MetadataIndexValue::Float(*bits),
            MetadataIndexValue::Bool(b) => MetadataIndexValue::Bool(*b),
        }
    }
}

/// Whether two typed scalar values are equal: same kind and equal payload.
pub fn value_eq(a: &MetadataIndexValue, b: &MetadataIndexValue) -> (r: bool)
    ensures
        r == (a@ == b@),
{
    match (a, b) {
        (MetadataIndexValue::String(x), MetadataIndexValue::String(y)) => x.eq(y),
        (MetadataIndexValue::Float(x), MetadataIndexValue::Float(y)) => *x == *y,
        (MetadataIndexValue::Bool(x), MetadataIndexValue::Bool(y)) => *x == *y,
        _ => false,
    }
}

/// A composite key: the pair of a field name and a typed scalar value,
/// addressing one posting set in the keyed store.
pub struct CompositeKey {
    pub field_name: String,
    pub value: MetadataIndexValue,
}

/// The mathematical value of a composite key: exactly the pair of its
/// components.
pub struct CompositeKeyView {
    pub field_name: Seq<char>,
    pub value: MetadataValueView,
}

impl View for CompositeKey {
    type V = CompositeKeyView;

    open spec fn view(&self) -> CompositeKeyView {
        CompositeKeyView { field_name: self.field_name@, value: self.value@ }
    }
}

impl CompositeKey {
    /// An owned copy addressing the same posting set.
    pub fn duplicate(&self) -> (r: CompositeKey)
        ensures
            r@ == self@,
    {
        CompositeKey { field_name: self.field_name.clone(), value: self.value.duplicate() }
    }
}

/// Whether two composite keys are equal: both components equal.
pub fn key_eq(a: &CompositeKey, b: &CompositeKey) -> (r: bool)
    ensures
        r == (a@ == b@),
{
    a.field_name.eq(&b.field_name) && value_eq(&a.value, &b.value)
}

/// Encode a field name and a typed scalar value as the composite key that
/// addresses their posting set. Pure, with no failure mode: the key's
/// identity is exactly the pair of the two arguments.
pub fn kv_to_blockfile_key(key: &str, value: MetadataIndexValue) -> (r: CompositeKey)
    ensures
        r@ == (CompositeKeyView { field_name: key@, value: value@ }),
{
    CompositeKey { field_name: String::from_str(key), value }
}

/// The composite-key encoding is injective: two encoded keys are equal
/// exactly when both the field name and the typed value agree, so distinct
/// pairs never address the same posting set.
pub proof fn lemma_composite_key_injective(
    f1: Seq<char>,
    v1: MetadataValueView,
    f2: Seq<char>,
    v2: MetadataValueView,
)
    ensures
        ((CompositeKeyView { field_name: f1, value: v1 }) == (CompositeKeyView {
            field_name: f2,
            value: v2,
        })) <==> (f1 == f2 && v1 == v2),
{
}

} // verus!
