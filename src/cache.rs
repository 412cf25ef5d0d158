use vstd::prelude::*;

use std::collections::HashMap;

use crate::asset_id::AssetId;

verus! {

broadcast use vstd::std_specs::hash::group_hash_axioms;

/// The table after an attempt to insert `v` under `k`: an entry that is
/// present is never replaced.
pub open spec fn after_insert<R>(m: Map<u32, R>, k: u32, v: R) -> Map<u32, R> {
    if m.contains_key(k) {
        m
    } else {
        m.insert(k, v)
    }
}

/// The table after insert attempts under `k` with each of `vs` in turn.
pub open spec fn after_inserts<R>(m: Map<u32, R>, k: u32, vs: Seq<R>) -> Map<u32, R>
    decreases vs.len(),
{
    if vs.len() == 0 {
        m
    } else {
        after_inserts(after_insert(m, k, vs[0]), k, vs.drop_first())
    }
}

/// Append-only table from asset identifiers to realized resources.
pub struct ResourceCache<R> {
    entries: HashMap<u32, R>,
}

impl<R> View for ResourceCache<R> {
    type V = Map<u32, R>;

    closed spec fn view(&self) -> Map<u32, R> {
        self.entries@
    }
}

impl<R> ResourceCache<R> {
    pub fn new() -> (c: ResourceCache<R>)
        ensures
            c@ == Map::<u32, R>::empty(),
    {
        ResourceCache { entries: HashMap::new() }
    }

    pub fn contains(&self, id: AssetId) -> (r: bool)
        ensures
            r == self@.contains_key(id.hash),
    {
        self.entries.contains_key(&id.hash)
    }

    pub fn get(&self, id: AssetId) -> (r: Option<&R>)
        ensures
            r is Some <==> self@.contains_key(id.hash),
            r matches Some(v) ==> *v == self@[id.hash],
    {
        self.entries.get(&id.hash)
    }

    /// Stores `res` under `id` unless an entry is already there; returns
    /// whether it was stored.
    pub fn insert_if_absent(&mut self, id: AssetId, res: R) -> (inserted: bool)
        ensures
            final(self)@ == after_insert(old(self)@, id.hash, res),
            inserted == !old(self)@.contains_key(id.hash),
    {
        if self.entries.contains_key(&id.hash) {
            return false;
        }
        self.entries.insert(id.hash, res);
        true
    }

    pub fn len(&self) -> (n: usize)
        ensures
            n == self@.len(),
    {
        self.entries.len()
    }
}

/// A second insert attempt under the same identifier changes nothing: the
/// first value stays.
pub proof fn lemma_insert_if_absent_idempotent<R>(m: Map<u32, R>, k: u32, v1: R, v2: R)
    ensures
        after_insert(after_insert(m, k, v1), k, v2) == after_insert(m, k, v1),
        after_insert(m, k, v1)[k] == (if m.contains_key(k) { m[k] } else { v1 }),
{
}

/// However many insert attempts are made under one identifier, and in
/// whatever order they land, the table gains at most that one key, and its
/// value is the one already present or else the first attempt's.
pub proof fn lemma_repeated_inserts_keep_one<R>(m: Map<u32, R>, k: u32, vs: Seq<R>)
    requires
        vs.len() > 0,
    ensures
        after_inserts(m, k, vs).dom() == m.dom().insert(k),
        after_inserts(m, k, vs)[k] == (if m.contains_key(k) { m[k] } else { vs[0] }),
        forall|j: u32| j != k && m.contains_key(j) ==> after_inserts(m, k, vs)[j] == m[j],
    decreases vs.len(),
{
    let m1 = after_insert(m, k, vs[0]);
    assert(m1.dom() =~= m.dom().insert(k));
    assert(after_inserts(m, k, vs) == after_inserts(m1, k, vs.drop_first()));
    assert forall|j: u32| j != k && m.contains_key(j) implies m1.contains_key(j) && m1[j] == m[j] by {}
    if vs.len() > 1 {
        lemma_repeated_inserts_keep_one(m1, k, vs.drop_first());
        assert(m.dom().insert(k).insert(k) =~= m.dom().insert(k));
    } else {
        assert(vs.drop_first().len() == 0);
        assert(after_inserts(m1, k, vs.drop_first()) == m1);
    }
}

} // verus!
