use vstd::prelude::*;

verus! {

/// A successful update is visible: when a store whose map is `m` holds
/// the key `k` (with whatever value `v0`), updating `k` to `v1` succeeds
/// and leaves a map in which a lookup of `k` yields exactly `v1`.
///
/// `Store::update` ensures that the map afterwards is `m.insert(k, v1)`,
/// and `Store::get` answers from that map; this law closes the chain.
pub proof fn lemma_update_visibility(
    m: Map<Seq<char>, Seq<char>>,
    k: Seq<char>,
    v0: Seq<char>,
    v1: Seq<char>,
)
    requires
        m.contains_key(k),
        m[k] == v0,
    ensures
        m.insert(k, v1).contains_key(k),
        m.insert(k, v1)[k] == v1,
{
}

/// Inserting under one key twice leaves exactly one entry for that key,
/// holding the second value: the intermediate map is overwritten, the
/// final map equals the one a single second insert would give, and the
/// key set grows by at most that one key.
///
/// The prior-value answers of the two `Store::insert` calls (the absence
/// marker, then the first value) come from `Store::insert`'s own
/// contract over these same maps.
pub proof fn lemma_insert_overwrite(
    m: Map<Seq<char>, Seq<char>>,
    k: Seq<char>,
    v1: Seq<char>,
    v2: Seq<char>,
)
    ensures
        m.insert(k, v1).insert(k, v2) == m.insert(k, v2),
        m.insert(k, v1).insert(k, v2)[k] == v2,
        m.insert(k, v1).insert(k, v2).dom() == m.dom().insert(k),
{
    assert(m.insert(k, v1).insert(k, v2) =~= m.insert(k, v2));
    assert(m.insert(k, v1).insert(k, v2).dom() =~= m.dom().insert(k));
}

} // verus!
