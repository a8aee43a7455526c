//! The set of flood identifiers a node has already handled, kept in an
//! insertion-ordered set from the indexmap crate. Its contents are modeled
//! as the sequence of identifiers in insertion order.

use vstd::prelude::*;

verus! {

#[verifier::external_type_specification]
#[verifier::external_body]
#[verifier::reject_recursive_types(T)]
#[verifier::reject_recursive_types(S)]
pub struct ExIndexSet<T, S>(indexmap::IndexSet<T, S>);

/// An insertion-ordered set of flood identifiers.
pub type FloodIdSet = indexmap::IndexSet<u64, std::collections::hash_map::RandomState>;

/// The identifiers a set holds, in insertion order.
pub uninterp spec fn flood_id_seq(s: FloodIdSet) -> Seq<u64>;

/// Relies on indexmap's IndexSet::default: makes an empty set.
#[verifier::external_body]
pub fn flood_ids_new() -> (s: FloodIdSet)
    ensures
        flood_id_seq(s) == Seq::<u64>::empty(),
{
    indexmap::IndexSet::default()
}

/// Relies on indexmap's IndexSet::insert: appends a value not yet present
/// and reports it as new; keeps the set and its order unchanged otherwise.
#[verifier::external_body]
pub fn flood_ids_insert(s: &mut FloodIdSet, value: u64) -> (newly_added: bool)
    ensures
        newly_added == !flood_id_seq(*old(s)).contains(value),
        flood_id_seq(*final(s)) == if flood_id_seq(*old(s)).contains(value) {
            flood_id_seq(*old(s))
        } else {
            flood_id_seq(*old(s)).push(value)
        },
{
    s.insert(value)
}

/// Relies on indexmap's IndexSet::contains: reports membership.
#[verifier::external_body]
pub fn flood_ids_contains(s: &FloodIdSet, value: u64) -> (r: bool)
    ensures
        r == flood_id_seq(*s).contains(value),
{
    s.contains(&value)
}

/// Relies on indexmap's IndexSet::last: hands out the most recently inserted
/// value, or nothing when the set is empty.
#[verifier::external_body]
pub fn flood_ids_last(s: &FloodIdSet) -> (r: Option<u64>)
    ensures
        match r {
            Some(v) => flood_id_seq(*s).len() > 0 && v == flood_id_seq(*s).last(),
            None => flood_id_seq(*s).len() == 0,
        },
{
    s.last().copied()
}

} // verus!
