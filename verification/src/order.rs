//! Node orders: permutation check and validation of arc lists.
use vstd::prelude::*;
use crate::error::InputError;

verus! {

/// `s` lists every id in `0..s.len()` exactly once: each entry is below the
/// length and no entry repeats.
pub open spec fn is_permutation_spec(s: Seq<u32>) -> bool {
    &&& forall|i: int| 0 <= i < s.len() ==> (#[trigger] s[i]) < s.len()
    &&& forall|i: int, j: int| 0 <= i < j < s.len() ==> #[trigger] s[i] != #[trigger] s[j]
}

/// Whether `arr` is a permutation of the node ids `0..arr.len()`.
pub fn is_permutation(arr: &[u32]) -> (r: bool)
    ensures
        r == is_permutation_spec(arr@),
{
    let n = arr.len();
    let mut seen: Vec<bool> = Vec::new();
    let mut k: usize = 0;
    while k < n
        invariant
            k <= n,
            seen@.len() == k,
            forall|v: int| 0 <= v < k ==> !(#[trigger] seen@[v]),
        decreases n - k,
    {
        seen.push(false);
        k = k + 1;
    }
    let mut i: usize = 0;
    while i < n
        invariant
            n == arr@.len(),
            i <= n,
            seen@.len() == n,
            forall|j: int| 0 <= j < i ==> (#[trigger] arr@[j]) < n,
            forall|j: int, l: int| 0 <= j < l < i ==> #[trigger] arr@[j] != #[trigger] arr@[l],
            forall|v: int|
                0 <= v < n ==> (#[trigger] seen@[v] <==> exists|j: int|
                    0 <= j < i && arr@[j] == v),
        decreases n - i,
    {
        let val = arr[i];
        if (val as usize) >= n {
            return false;
        }
        if seen[val as usize] {
            proof {
                let j = choose|j: int| 0 <= j < i && arr@[j] == val;
                assert(arr@[j] == arr@[i as int]);
            }
            return false;
        }
        proof {
            assert forall|j: int| 0 <= j < i implies arr@[j] != arr@[i as int] by {
                if arr@[j] == arr@[i as int] {
                    assert(seen@[val as int]);
                }
            }
        }
        seen.set(val as usize, true);
        proof {
            assert forall|v: int|
                0 <= v < n implies (#[trigger] seen@[v] <==> exists|j: int|
                    0 <= j < i + 1 && arr@[j] == v) by {
                if v == val as int {
                    assert(arr@[i as int] == v);
                } else {
                    if exists|j: int| 0 <= j < i + 1 && arr@[j] == v {
                        let j = choose|j: int| 0 <= j < i + 1 && arr@[j] == v;
                        assert(j < i);
                    }
                }
            }
        }
        i = i + 1;
    }
    true
}


/// Whether a sequence of ids is made of node ids below `bound`.
pub open spec fn ids_below(s: Seq<u32>, bound: int) -> bool {
    forall|i: int| 0 <= i < s.len() ==> (#[trigger] s[i]) < bound
}

/// The outcome that the checks on an arc list give, in the order they are
/// made: node ids first, then the two lengths.
pub open spec fn arc_list_result(node_count: int, tail: Seq<u32>, head: Seq<u32>) -> Result<(), InputError> {
    if !(ids_below(tail, node_count) && ids_below(head, node_count)) {
        Err(InputError::NodeIdOutOfRange)
    } else if tail.len() != head.len() {
        Err(InputError::ArcLengthMismatch)
    } else {
        Ok(())
    }
}

/// The outcome of the checks that come before an inertial-flow order is computed.
pub open spec fn inertial_input_result(
    node_count: int,
    tail: Seq<u32>,
    head: Seq<u32>,
    latitude_len: int,
    longitude_len: int,
) -> Result<(), InputError> {
    if arc_list_result(node_count, tail, head) is Err {
        arc_list_result(node_count, tail, head)
    } else if latitude_len != node_count || longitude_len != node_count {
        Err(InputError::CoordinateLengthMismatch)
    } else {
        Ok(())
    }
}

/// Whether every entry of `s` is below `bound`.
pub fn all_below(s: &[u32], bound: usize) -> (r: bool)
    ensures
        r == ids_below(s@, bound as int),
{
    let n = s.len();
    let mut i: usize = 0;
    while i < n
        invariant
            n == s@.len(),
            i <= n,
            forall|j: int| 0 <= j < i ==> (#[trigger] s@[j]) < bound,
        decreases n - i,
    {
        if (s[i] as usize) >= bound {
            return false;
        }
        i = i + 1;
    }
    true
}

/// The checks that guard the degree-based order: every tail and head id is
/// below `node_count`, and both lists have the same length.
pub fn check_order_input(node_count: u32, tail: &[u32], head: &[u32]) -> (r: Result<(), InputError>)
    ensures
        r == arc_list_result(node_count as int, tail@, head@),
{
    let bound = node_count as usize;
    if !(all_below(tail, bound) && all_below(head, bound)) {
        Err(InputError::NodeIdOutOfRange)
    } else if tail.len() != head.len() {
        Err(InputError::ArcLengthMismatch)
    } else {
        Ok(())
    }
}

/// The checks that guard the inertial-flow order: those of the arc list, then
/// one latitude and one longitude per node. The coordinates enter by their
/// lengths only.
pub fn check_inertial_input(
    node_count: u32,
    tail: &[u32],
    head: &[u32],
    latitude_len: usize,
    longitude_len: usize,
) -> (r: Result<(), InputError>)
    ensures
        r == inertial_input_result(
            node_count as int,
            tail@,
            head@,
            latitude_len as int,
            longitude_len as int,
        ),
{
    let arcs = check_order_input(node_count, tail, head);
    if arcs.is_err() {
        arcs
    } else if latitude_len != node_count as usize || longitude_len != node_count as usize {
        Err(InputError::CoordinateLengthMismatch)
    } else {
        Ok(())
    }
}

/// A permutation of `0..n` names every node: each id below the length occurs in it.
pub proof fn lemma_permutation_covers_all_nodes(s: Seq<u32>)
    requires
        is_permutation_spec(s),
    ensures
        forall|v: u32| v < s.len() ==> #[trigger] s.contains(v),
{
    let t = s.map_values(|x: u32| x as int);
    assert forall|i: int, j: int| 0 <= i < t.len() && 0 <= j < t.len() && i != j implies t[i] != t[j] by {
        if i < j {
            assert(s[i] != s[j]);
        } else {
            assert(s[j] != s[i]);
        }
    }
    assert(t.no_duplicates());
    t.unique_seq_to_set();
    let range = vstd::set_lib::set_int_range(0, s.len() as int);
    vstd::set_lib::lemma_int_range(0, s.len() as int);
    assert forall|x: int| t.to_set().contains(x) implies range.contains(x) by {
        let i = choose|i: int| 0 <= i < t.len() && t[i] == x;
        assert(s[i] < s.len());
    }
    vstd::set_lib::lemma_subset_equality(t.to_set(), range);
    assert forall|v: u32| v < s.len() implies #[trigger] s.contains(v) by {
        assert(range.contains(v as int));
        assert(t.to_set().contains(v as int));
        let i = choose|i: int| 0 <= i < t.len() && t[i] == v as int;
        assert(s[i] == v);
    }
}

} // verus!
