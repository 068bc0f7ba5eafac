//! What the checks accept and what a partial update marks, stated directly
//! over the inputs.
use vstd::prelude::*;
use crate::error::InputError;
use crate::hierarchy::hierarchy_input_result;
use crate::distance::distance_of;
use crate::engine::QueryOp;
use crate::metric::{apply_updates, updated_arcs, updates_result};
use crate::order::{arc_list_result, inertial_input_result};
use crate::pinned::{batch_result, many_to_one_plan, one_to_many_plan, pin_result};
use crate::query::batch_run_result;

verus! {

/// A partial update marks every updated arc for re-customization: one entry
/// per update, in batch order, each the update's arc, whatever its new weight
/// (the infinite weight included).
pub proof fn law_every_update_is_marked(updates: Seq<(u32, u32)>)
    ensures
        updated_arcs(updates).len() == updates.len(),
        forall|i: int| 0 <= i < updates.len() ==> #[trigger] updated_arcs(updates)[i] == updates[i].0,
{
}

/// A batch of updates is accepted exactly when every update names an arc of
/// the weight vector; the new weights play no part.
pub proof fn law_updates_accepted_iff_arcs_exist(updates: Seq<(u32, u32)>, len: int)
    ensures
        updates_result(updates, len) is Ok <==> forall|i: int| 0 <= i < updates.len() ==> (#[trigger] updates[i]).0 < len,
{
}

/// A batch of `(node, initial_dist)` pairs is accepted exactly when it is not
/// empty and every node is a node of the hierarchy; the initial distances play
/// no part, and the refusals are the two given errors in that order.
pub proof fn law_batch_accepted_iff_nodes_exist(n: nat, pairs: Seq<(u32, u32)>, empty: InputError, out_of_range: InputError)
    ensures
        batch_result(n, pairs, empty, out_of_range) is Ok <==> (pairs.len() > 0 && forall|i: int|
            0 <= i < pairs.len() ==> (#[trigger] pairs[i]).0 < n),
        pairs.len() == 0 ==> batch_result(n, pairs, empty, out_of_range) == Err::<(), InputError>(empty),
        pairs.len() > 0 && batch_result(n, pairs, empty, out_of_range) is Err ==> batch_result(
            n,
            pairs,
            empty,
            out_of_range,
        ) == Err::<(), InputError>(out_of_range),
{
}

/// Changing the initial distances of a batch never changes whether it is accepted.
pub proof fn law_batch_ignores_initial_distances(
    n: nat,
    pairs: Seq<(u32, u32)>,
    other: Seq<(u32, u32)>,
    empty: InputError,
    out_of_range: InputError,
)
    requires
        other.len() == pairs.len(),
        forall|i: int| 0 <= i < pairs.len() ==> (#[trigger] other[i]).0 == pairs[i].0,
    ensures
        batch_result(n, other, empty, out_of_range) == batch_result(n, pairs, empty, out_of_range),
{
    law_batch_accepted_iff_nodes_exist(n, pairs, empty, out_of_range);
    law_batch_accepted_iff_nodes_exist(n, other, empty, out_of_range);
    if batch_result(n, pairs, empty, out_of_range) is Ok {
        assert forall|i: int| 0 <= i < other.len() implies (#[trigger] other[i]).0 < n by {
            assert(pairs[i].0 < n);
        }
    }
    if batch_result(n, other, empty, out_of_range) is Ok {
        assert forall|i: int| 0 <= i < pairs.len() implies (#[trigger] pairs[i]).0 < n by {
            assert(other[i].0 < n);
        }
    }
}

/// A pinned node set is accepted exactly when it is not empty and every id is
/// a node; repeated entries are allowed, and the refusals are the two given
/// errors in that order.
pub proof fn law_pins_accepted_iff_nodes_exist(n: nat, nodes: Seq<u32>, empty: InputError, out_of_range: InputError)
    ensures
        pin_result(n, nodes, empty, out_of_range) is Ok <==> (nodes.len() > 0 && forall|i: int|
            0 <= i < nodes.len() ==> (#[trigger] nodes[i]) < n),
        nodes.len() == 0 ==> pin_result(n, nodes, empty, out_of_range) == Err::<(), InputError>(empty),
        nodes.len() > 0 && pin_result(n, nodes, empty, out_of_range) is Err ==> pin_result(
            n,
            nodes,
            empty,
            out_of_range,
        ) == Err::<(), InputError>(out_of_range),
{
}

/// Repeating an entry of an accepted pinned set keeps it accepted.
pub proof fn law_pins_allow_duplicates(n: nat, nodes: Seq<u32>, k: int, empty: InputError, out_of_range: InputError)
    requires
        pin_result(n, nodes, empty, out_of_range) is Ok,
        0 <= k < nodes.len(),
    ensures
        pin_result(n, nodes.push(nodes[k]), empty, out_of_range) is Ok,
{
    law_pins_accepted_iff_nodes_exist(n, nodes, empty, out_of_range);
    law_pins_accepted_iff_nodes_exist(n, nodes.push(nodes[k]), empty, out_of_range);
    let longer = nodes.push(nodes[k]);
    assert forall|i: int| 0 <= i < longer.len() implies (#[trigger] longer[i]) < n by {
        if i < nodes.len() {
            assert(longer[i] == nodes[i]);
        } else {
            assert(longer[i] == nodes[k]);
        }
    }
}

/// A batch run is accepted exactly when it has at least one source and at least
/// one target and every node is a node of the hierarchy; how many sources or
/// targets beyond that, and their initial distances, play no part.
pub proof fn law_batch_run_accepted_iff(n: nat, sources: Seq<(u32, u32)>, targets: Seq<(u32, u32)>)
    ensures
        batch_run_result(n, sources, targets) is Ok <==> {
            &&& sources.len() > 0
            &&& targets.len() > 0
            &&& forall|i: int| 0 <= i < sources.len() ==> (#[trigger] sources[i]).0 < n
            &&& forall|i: int| 0 <= i < targets.len() ==> (#[trigger] targets[i]).0 < n
        },
{
}

/// A single pair of nodes of the hierarchy always makes a batch run that is accepted.
pub proof fn law_single_pair_run_accepted(n: nat, s: u32, t: u32, ds: u32, dt: u32)
    requires
        s < n,
        t < n,
    ensures
        batch_run_result(n, seq![(s, ds)], seq![(t, dt)]) is Ok,
{
    law_batch_run_accepted_iff(n, seq![(s, ds)], seq![(t, dt)]);
}

/// A hierarchy's input is accepted exactly when the order lists each id below
/// its length once, tail and head have the same length, and every arc end is
/// below the order's length; the number of arcs is otherwise free.
pub proof fn law_hierarchy_accepted_iff(order: Seq<u32>, tail: Seq<u32>, head: Seq<u32>)
    ensures
        hierarchy_input_result(order, tail, head) is Ok <==> {
            &&& forall|i: int| 0 <= i < order.len() ==> (#[trigger] order[i]) < order.len()
            &&& forall|i: int, j: int| 0 <= i < j < order.len() ==> #[trigger] order[i] != #[trigger] order[j]
            &&& tail.len() == head.len()
            &&& forall|i: int| 0 <= i < tail.len() ==> (#[trigger] tail[i]) < order.len()
            &&& forall|i: int| 0 <= i < head.len() ==> (#[trigger] head[i]) < order.len()
        },
{
}

/// An arc list is accepted exactly when every tail and head id is below the
/// node count and both lists have the same length.
pub proof fn law_arc_list_accepted_iff(node_count: int, tail: Seq<u32>, head: Seq<u32>)
    ensures
        arc_list_result(node_count, tail, head) is Ok <==> {
            &&& tail.len() == head.len()
            &&& forall|i: int| 0 <= i < tail.len() ==> (#[trigger] tail[i]) < node_count
            &&& forall|i: int| 0 <= i < head.len() ==> (#[trigger] head[i]) < node_count
        },
{
}

/// The inertial order's input is accepted exactly when the arc list is, and
/// there is one latitude and one longitude per node.
pub proof fn law_inertial_accepted_iff(
    node_count: int,
    tail: Seq<u32>,
    head: Seq<u32>,
    latitude_len: int,
    longitude_len: int,
)
    ensures
        inertial_input_result(node_count, tail, head, latitude_len, longitude_len) is Ok <==> {
            &&& tail.len() == head.len()
            &&& forall|i: int| 0 <= i < tail.len() ==> (#[trigger] tail[i]) < node_count
            &&& forall|i: int| 0 <= i < head.len() ==> (#[trigger] head[i]) < node_count
            &&& latitude_len == node_count
            &&& longitude_len == node_count
        },
{
}

/// Writing a batch of in-range updates keeps the length; an arc that no update
/// names keeps its weight, and a named arc gets the weight of the last update
/// that names it.
pub proof fn law_apply_writes_last_update(weights: Seq<u32>, updates: Seq<(u32, u32)>)
    requires
        forall|i: int| 0 <= i < updates.len() ==> (#[trigger] updates[i]).0 < weights.len(),
    ensures
        apply_updates(weights, updates).len() == weights.len(),
        forall|j: int|
            0 <= j < weights.len() && (forall|i: int| 0 <= i < updates.len() ==> (#[trigger] updates[i]).0 != j)
                ==> #[trigger] apply_updates(weights, updates)[j] == weights[j],
        forall|i: int|
            0 <= i < updates.len() && (forall|k: int| i < k < updates.len() ==> (#[trigger] updates[k]).0 != updates[i].0)
                ==> apply_updates(weights, updates)[#[trigger] updates[i].0 as int] == updates[i].1,
    decreases updates.len(),
{
    if updates.len() > 0 {
        let rest = updates.drop_last();
        assert forall|i: int| 0 <= i < rest.len() implies (#[trigger] rest[i]).0 < weights.len() by {
            assert(rest[i] == updates[i]);
        }
        law_apply_writes_last_update(weights, rest);
        let last = updates.last();
        let n = updates.len() - 1;
        assert(updates[n] == last);
        assert forall|j: int|
            0 <= j < weights.len() && (forall|i: int| 0 <= i < updates.len() ==> (#[trigger] updates[i]).0 != j)
                implies #[trigger] apply_updates(weights, updates)[j] == weights[j] by {
            assert(updates[n].0 != j);
            assert forall|i: int| 0 <= i < rest.len() implies (#[trigger] rest[i]).0 != j by {
                assert(rest[i] == updates[i]);
            }
        }
        assert forall|i: int|
            0 <= i < updates.len() && (forall|k: int| i < k < updates.len() ==> (#[trigger] updates[k]).0 != updates[i].0)
                implies apply_updates(weights, updates)[#[trigger] updates[i].0 as int] == updates[i].1 by {
            if i < n {
                assert(updates[n].0 != updates[i].0);
                assert(rest[i] == updates[i]);
                assert forall|k: int| i < k < rest.len() implies (#[trigger] rest[k]).0 != rest[i].0 by {
                    assert(rest[k] == updates[k]);
                }
            }
        }
    }
}

/// An engine answer is unreachable exactly when it is the infinite weight;
/// any other answer is the distance itself.
pub proof fn law_infinite_answer_is_unreachable(raw: u32)
    ensures
        distance_of(raw) is None <==> raw == 2147483647u32,
        raw != 2147483647u32 ==> distance_of(raw) == Some(raw),
{
}

/// A one-to-many batch adds each source with its initial distance, in batch
/// order, then searches, reads, and drops the sources: nothing else.
pub proof fn law_one_to_many_plan_shape(sources: Seq<(u32, u32)>)
    ensures
        one_to_many_plan(sources).len() == sources.len() + 3,
        forall|i: int|
            0 <= i < sources.len() ==> #[trigger] one_to_many_plan(sources)[i] == QueryOp::AddSource(
                sources[i].0,
                sources[i].1,
            ),
        one_to_many_plan(sources)[sources.len() as int] == QueryOp::RunToPinnedTargets,
        one_to_many_plan(sources)[sources.len() + 1int] == QueryOp::ReadDistancesToTargets,
        one_to_many_plan(sources)[sources.len() + 2int] == QueryOp::ResetSource,
{
}

/// A many-to-one batch adds each target with its initial distance, in batch
/// order, then searches, reads, and drops the targets: nothing else.
pub proof fn law_many_to_one_plan_shape(targets: Seq<(u32, u32)>)
    ensures
        many_to_one_plan(targets).len() == targets.len() + 3,
        forall|i: int|
            0 <= i < targets.len() ==> #[trigger] many_to_one_plan(targets)[i] == QueryOp::AddTarget(
                targets[i].0,
                targets[i].1,
            ),
        many_to_one_plan(targets)[targets.len() as int] == QueryOp::RunToPinnedSources,
        many_to_one_plan(targets)[targets.len() + 1int] == QueryOp::ReadDistancesToSources,
        many_to_one_plan(targets)[targets.len() + 2int] == QueryOp::ResetTarget,
{
}

} // verus!
