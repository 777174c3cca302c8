//! The transposition table: a hash map from `(black, white, side)` to a
//! stored search result, kept by the caller across turns as an opaque
//! handle. The map itself comes from the fxhash crate (a `HashMap` with the
//! Fx hasher); the few operations the engine needs are trusted wrappers
//! whose contracts speak of the map's view.

use vstd::prelude::*;

use crate::player::Entry;

verus! {

/// The hasher of the fxhash crate, declared so its hash maps can appear in
/// signatures. Nothing is assumed about it: entries are always found by
/// full key, whatever the hash.
#[verifier::external_type_specification]
#[verifier::external_body]
pub struct ExFxHasher(fxhash::FxHasher);

/// `std::hash::BuildHasherDefault`, which fxhash uses to build its hashers.
#[verifier::external_type_specification]
#[verifier::external_body]
#[verifier::reject_recursive_types(H)]
pub struct ExBuildHasherDefault<H>(std::hash::BuildHasherDefault<H>);

/// A position key: the two occupancy masks and the side to move.
pub type TtKey = (u64, u64, u8);

/// The caller-held transposition table.
pub type TransTable = std::collections::HashMap<
    TtKey,
    Entry,
    std::hash::BuildHasherDefault<fxhash::FxHasher>,
>;

/// Cap on the magnitude of any score the engine stores or returns.
pub const SCORE_CAP: i32 = 1000000;

/// Every stored score is within the engine's score cap. The engine keeps
/// this invariant across probes, stores and trims, so negating and widening
/// scores never overflows.
pub open spec fn tt_wf(m: Map<TtKey, Entry>) -> bool {
    forall|k: TtKey| m.contains_key(k) ==> -SCORE_CAP <= (#[trigger] m[k]).score <= SCORE_CAP
}

/// Creates an empty transposition table.
pub fn new_transposition_table() -> (r: TransTable)
    ensures
        r@ == Map::<TtKey, Entry>::empty(),
        tt_wf(r@),
{
    std::collections::HashMap::default()
}

/// Relies on `HashMap::get`: the returned entry is the one the map holds at
/// `key`, and absence means the map holds none.
#[verifier::external_body]
pub fn tt_probe(tt: &TransTable, key: TtKey) -> (r: Option<Entry>)
    ensures
        r == if tt@.contains_key(key) {
            Some(tt@[key])
        } else {
            None::<Entry>
        },
{
    tt.get(&key).copied()
}

/// Relies on `HashMap::insert`: the map afterwards holds `entry` at `key`
/// and is otherwise unchanged.
#[verifier::external_body]
pub fn tt_store(tt: &mut TransTable, key: TtKey, entry: Entry)
    ensures
        final(tt)@ == old(tt)@.insert(key, entry),
{
    tt.insert(key, entry);
}

/// Relies on `HashMap::remove`: the map afterwards lacks `key` and is
/// otherwise unchanged.
#[verifier::external_body]
pub fn tt_remove(tt: &mut TransTable, key: TtKey)
    ensures
        final(tt)@ == old(tt)@.remove(key),
{
    tt.remove(&key);
}

/// Relies on `HashMap::iter`: every listed pair is in the map, every key of
/// the map is listed exactly once, and the list is as long as the map. The
/// order the pairs come in is the map's own and nothing is promised of it.
#[verifier::external_body]
pub fn tt_entries(tt: &TransTable) -> (r: Vec<(TtKey, Entry)>)
    ensures
        r@.len() == tt@.len(),
        forall|i: int|
            0 <= i < r@.len() ==> tt@.contains_key((#[trigger] r@[i]).0) && tt@[r@[i].0]
                == r@[i].1,
        forall|k: TtKey|
            tt@.contains_key(k) ==> exists|i: int| 0 <= i < r@.len() && (#[trigger] r@[i]).0 == k,
        forall|i: int, j: int| 0 <= i < j < r@.len() ==> (#[trigger] r@[i]).0 != (#[trigger] r@[j]).0,
{
    tt.iter().map(|(k, v)| (*k, *v)).collect()
}

/// Relies on `HashMap::len`: the number of entries the map holds.
#[verifier::external_body]
pub fn tt_len(tt: &TransTable) -> (r: usize)
    ensures
        r as int == tt@.len(),
{
    tt.len()
}

} // verus!
