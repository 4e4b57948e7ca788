//! Operation descriptors: the typed payloads of the five statement-building
//! commands. Predicate and column maps are insertion-ordered, and that order
//! decides both statement text and bound-value order.

use vstd::prelude::*;

use indexmap::IndexMap;

use crate::value::Value;

verus! {

#[verifier::external_type_specification]
#[verifier::external_body]
#[verifier::reject_recursive_types(K)]
#[verifier::reject_recursive_types(V)]
#[verifier::reject_recursive_types(S)]
pub struct ExIndexMap<K, V, S>(IndexMap<K, V, S>);

/// The key/value pairs an insertion-ordered map holds, in insertion order.
pub uninterp spec fn index_entries(m: IndexMap<String, Value>) -> Seq<(String, Value)>;

/// Relies on indexmap's `IndexMap::iter`: the key/value pairs in their
/// insertion order. A map holds each key once, so the keys handed back are
/// pairwise distinct.
#[verifier::external_body]
pub fn entries(m: &IndexMap<String, Value>) -> (r: Vec<(String, Value)>)
    ensures
        r@ == index_entries(*m),
        forall|i: int, j: int|
            0 <= i < j < r@.len() ==> (#[trigger] r@[i].0)@ != (#[trigger] r@[j].0)@,
{
    m.iter().map(|(k, v)| (k.clone(), v.duplicate())).collect()
}

/// The keys of an entry sequence, in order.
pub open spec fn entry_keys(s: Seq<(String, Value)>) -> Seq<String> {
    s.map_values(|p: (String, Value)| p.0)
}

/// The values of an entry sequence, in order.
pub open spec fn entry_values(s: Seq<(String, Value)>) -> Seq<Value> {
    s.map_values(|p: (String, Value)| p.1)
}

/// A select operation: an equality-only predicate map, the columns to fetch
/// (all of them when empty), and a row limit (unbounded when zero).
pub struct SelectData {
    pub where_clause: IndexMap<String, Value>,
    pub columns: Vec<String>,
    pub limit: u32,
}

/// An insert operation: the column/value map and an optional existence guard.
pub struct InsertData {
    pub columns: IndexMap<String, Value>,
    pub if_not_exists: Option<bool>,
}

/// An update operation: the primary-key predicate map and the column/value
/// map to set.
pub struct UpdateData {
    pub primary: IndexMap<String, Value>,
    pub values: IndexMap<String, Value>,
}

/// A delete operation: an equality-only predicate map.
pub struct DeleteData {
    pub where_clause: IndexMap<String, Value>,
}

/// A raw operation: client-supplied statement text passed through verbatim,
/// values always bound as parameters, and an optional positive limit.
pub struct RawData {
    pub query: String,
    pub values: Vec<Value>,
    pub limit: Option<i32>,
}

} // verus!
