use vstd::prelude::*;

use indexmap::IndexMap;
use std::collections::hash_map::RandomState;

verus! {

#[verifier::external_type_specification]
#[verifier::external_body]
#[verifier::reject_recursive_types(K)]
#[verifier::reject_recursive_types(V)]
#[verifier::reject_recursive_types(S)]
pub struct ExIndexMap<K, V, S>(IndexMap<K, V, S>);

/// The members that an ordered map of field names to JSON texts holds, in
/// its order.
pub uninterp spec fn map_members(m: IndexMap<String, Vec<u8>, RandomState>) -> Seq<
    (Seq<char>, Seq<u8>),
>;

/// The position of the last member of `ms` named `k`, or -1.
pub open spec fn position_of(ms: Seq<(Seq<char>, Seq<u8>)>, k: Seq<char>) -> int
    decreases ms.len(),
{
    if ms.len() == 0 {
        -1
    } else if ms.last().0 == k {
        ms.len() - 1
    } else {
        position_of(ms.drop_last(), k)
    }
}

/// `ms` after inserting member `(k, v)` into an ordered map: a name already
/// there keeps its place and takes the new value; a new name goes last.
pub open spec fn insert_member_spec(ms: Seq<(Seq<char>, Seq<u8>)>, k: Seq<char>, v: Seq<u8>) -> Seq<
    (Seq<char>, Seq<u8>),
> {
    if position_of(ms, k) >= 0 {
        ms.update(position_of(ms, k), (k, v))
    } else {
        ms.push((k, v))
    }
}

/// The ordered map that inserting the members of `ms`, in order, into an
/// empty one gives.
pub open spec fn collect_members(ms: Seq<(Seq<char>, Seq<u8>)>) -> Seq<(Seq<char>, Seq<u8>)>
    decreases ms.len(),
{
    if ms.len() == 0 {
        Seq::empty()
    } else {
        insert_member_spec(collect_members(ms.drop_last()), ms.last().0, ms.last().1)
    }
}

pub open spec fn member_names(ms: Seq<(Seq<char>, Seq<u8>)>) -> Seq<Seq<char>> {
    ms.map_values(|m: (Seq<char>, Seq<u8>)| m.0)
}

proof fn lemma_insert_new(ms: Seq<(Seq<char>, Seq<u8>)>, k: Seq<char>, v: Seq<u8>)
    requires
        !member_names(ms).contains(k),
    ensures
        position_of(ms, k) == -1,
        insert_member_spec(ms, k, v) == ms.push((k, v)),
    decreases ms.len(),
{
    if ms.len() > 0 {
        let init = ms.drop_last();
        assert(member_names(ms)[ms.len() - 1] == ms.last().0);
        assert forall|i: int| 0 <= i < init.len() implies member_names(init)[i] != k by {
            assert(member_names(init)[i] == member_names(ms)[i]);
        }
        lemma_insert_new(init, k, v);
    }
}

/// Members with distinct names go into an ordered map and come out as they
/// went in.
pub proof fn lemma_collect_distinct(ms: Seq<(Seq<char>, Seq<u8>)>)
    requires
        member_names(ms).no_duplicates(),
    ensures
        collect_members(ms) == ms,
    decreases ms.len(),
{
    if ms.len() > 0 {
        let init = ms.drop_last();
        assert forall|a: int, b: int|
            0 <= a < b < init.len() implies member_names(init)[a] != member_names(init)[b] by {
            assert(member_names(init)[a] == member_names(ms)[a]);
            assert(member_names(init)[b] == member_names(ms)[b]);
        }
        lemma_collect_distinct(init);
        assert forall|i: int| 0 <= i < init.len() implies member_names(init)[i] != ms.last().0 by {
            assert(member_names(init)[i] == member_names(ms)[i]);
            assert(member_names(ms)[ms.len() - 1] == ms.last().0);
        }
        lemma_insert_new(init, ms.last().0, ms.last().1);
        assert(init.push(ms.last()) =~= ms);
    }
}

/// Relies on indexmap::IndexMap::new: a new map is empty.
#[verifier::external_body]
pub(crate) fn new_members() -> (r: IndexMap<String, Vec<u8>, RandomState>)
    ensures
        map_members(r) == Seq::<(Seq<char>, Seq<u8>)>::empty(),
{
    IndexMap::new()
}

/// Relies on indexmap::IndexMap::insert: an existing key keeps its place and
/// takes the new value; a new key goes last.
#[verifier::external_body]
pub(crate) fn insert_member(m: &mut IndexMap<String, Vec<u8>, RandomState>, k: String, v: Vec<u8>)
    ensures
        map_members(*final(m)) == insert_member_spec(map_members(*old(m)), k@, v@),
{
    m.insert(k, v);
}

/// Relies on IndexMap's `IntoIterator`, which yields the entries in the map's
/// order.
#[verifier::external_body]
pub(crate) fn into_members(m: IndexMap<String, Vec<u8>, RandomState>) -> (r: Vec<(String, Vec<u8>)>)
    ensures
        r.deep_view() == map_members(m),
{
    m.into_iter().collect()
}

} // verus!
