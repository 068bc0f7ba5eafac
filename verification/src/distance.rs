//! Distances as the engine reports them and as the library hands them out.
use vstd::prelude::*;

verus! {

/// The engine's "infinity" weight. A distance equal to it means "unreachable";
/// input weights must not exceed it.
pub const INF_WEIGHT: u32 = 2_147_483_647;

/// The distance that an engine answer stands for: `None` for unreachable.
pub open spec fn distance_of(raw: u32) -> Option<u32> {
    if raw == INF_WEIGHT {
        None
    } else {
        Some(raw)
    }
}

/// Turns one engine answer into a distance: `None` when it is `INF_WEIGHT`.
pub fn distance_from_raw(raw: u32) -> (r: Option<u32>)
    ensures
        r == distance_of(raw),
{
    if raw == INF_WEIGHT {
        None
    } else {
        Some(raw)
    }
}

/// Turns the engine's answers for a pinned set into distances, entry by entry,
/// in the same order.
pub fn distances_from_raw(raw: &[u32]) -> (r: Vec<Option<u32>>)
    ensures
        r@ == raw@.map_values(|d: u32| distance_of(d)),
{
    let n = raw.len();
    let mut r: Vec<Option<u32>> = Vec::new();
    let mut i: usize = 0;
    while i < n
        invariant
            n == raw@.len(),
            i <= n,
            r@ == raw@.take(i as int).map_values(|d: u32| distance_of(d)),
        decreases n - i,
    {
        r.push(distance_from_raw(raw[i]));
        assert(raw@.take(i + 1) =~= raw@.take(i as int).push(raw@[i as int]));
        assert(raw@.take(i + 1).map_values(|d: u32| distance_of(d)) =~= raw@.take(i as int).map_values(
            |d: u32| distance_of(d),
        ).push(distance_of(raw@[i as int])));
        i = i + 1;
    }
    assert(raw@.take(n as int) =~= raw@);
    r
}

} // verus!
