//! The protocol of a query object of the routing engine: the calls the
//! library may hand it, the state each call leaves behind, and which calls the
//! engine accepts in which state.
use vstd::prelude::*;

verus! {

/// One call on a query object of the engine.
#[derive(Debug, PartialEq, Eq)]
pub enum QueryCall {
    /// Add a source node with its initial distance.
    AddSource(u32, u32),
    /// Add a target node with its initial distance.
    AddTarget(u32, u32),
    /// Point-to-point search between the added sources and targets.
    Run,
    /// Pin a fixed target set (the query must be fresh).
    PinTargets(Vec<u32>),
    /// One-to-many search from the added sources to the pinned targets.
    RunToPinnedTargets,
    /// Read the distances to the pinned targets, in pinning order.
    ReadDistancesToTargets,
    /// Clear the sources and labels, keep the pinned targets.
    ResetSource,
    /// Pin a fixed source set (the query must be fresh).
    PinSources(Vec<u32>),
    /// Many-to-one search from the pinned sources to the added targets.
    RunToPinnedSources,
    /// Read the distances from the pinned sources, in pinning order.
    ReadDistancesToSources,
    /// Clear the targets and labels, keep the pinned sources.
    ResetTarget,
    /// Return the query to its freshly constructed state.
    Reset,
}

/// A call as the protocol sees it.
pub enum QueryOp {
    AddSource(u32, u32),
    AddTarget(u32, u32),
    Run,
    PinTargets(Seq<u32>),
    RunToPinnedTargets,
    ReadDistancesToTargets,
    ResetSource,
    PinSources(Seq<u32>),
    RunToPinnedSources,
    ReadDistancesToSources,
    ResetTarget,
    Reset,
}

impl View for QueryCall {
    type V = QueryOp;

    open spec fn view(&self) -> QueryOp {
        match self {
            QueryCall::AddSource(s, d) => QueryOp::AddSource(*s, *d),
            QueryCall::AddTarget(t, d) => QueryOp::AddTarget(*t, *d),
            QueryCall::Run => QueryOp::Run,
            QueryCall::PinTargets(v) => QueryOp::PinTargets(v@),
            QueryCall::RunToPinnedTargets => QueryOp::RunToPinnedTargets,
            QueryCall::ReadDistancesToTargets => QueryOp::ReadDistancesToTargets,
            QueryCall::ResetSource => QueryOp::ResetSource,
            QueryCall::PinSources(v) => QueryOp::PinSources(v@),
            QueryCall::RunToPinnedSources => QueryOp::RunToPinnedSources,
            QueryCall::ReadDistancesToSources => QueryOp::ReadDistancesToSources,
            QueryCall::ResetTarget => QueryOp::ResetTarget,
            QueryCall::Reset => QueryOp::Reset,
        }
    }
}

/// The calls that add each pair, in order, as sources or as targets.
pub fn add_calls(pairs: &[(u32, u32)], as_sources: bool) -> (plan: Vec<QueryCall>)
    ensures
        plan@.len() == pairs@.len(),
        forall|i: int|
            0 <= i < pairs@.len() ==> (#[trigger] plan@[i])@ == if as_sources {
                QueryOp::AddSource(pairs@[i].0, pairs@[i].1)
            } else {
                QueryOp::AddTarget(pairs@[i].0, pairs@[i].1)
            },
{
    let n = pairs.len();
    let mut plan: Vec<QueryCall> = Vec::new();
    let mut i: usize = 0;
    while i < n
        invariant
            n == pairs@.len(),
            i <= n,
            plan@.len() == i,
            forall|j: int|
                0 <= j < i ==> (#[trigger] plan@[j])@ == if as_sources {
                    QueryOp::AddSource(pairs@[j].0, pairs@[j].1)
                } else {
                    QueryOp::AddTarget(pairs@[j].0, pairs@[j].1)
                },
        decreases n - i,
    {
        let (node, dist) = pairs[i];
        if as_sources {
            plan.push(QueryCall::AddSource(node, dist));
        } else {
            plan.push(QueryCall::AddTarget(node, dist));
        }
        i = i + 1;
    }
    plan
}

/// Whether the node of every pair of `pairs` is below `bound`.
pub fn pair_nodes_all_below(pairs: &[(u32, u32)], bound: usize) -> (r: bool)
    ensures
        r == pair_nodes_below(pairs@, bound as nat),
{
    let n = pairs.len();
    let mut i: usize = 0;
    while i < n
        invariant
            n == pairs@.len(),
            i <= n,
            forall|j: int| 0 <= j < i ==> (#[trigger] pairs@[j]).0 < bound,
        decreases n - i,
    {
        if (pairs[i].0 as usize) >= bound {
            return false;
        }
        i = i + 1;
    }
    true
}

/// The calls of a plan as the protocol sees them.
pub open spec fn ops(plan: Seq<QueryCall>) -> Seq<QueryOp> {
    plan.map_values(|c: QueryCall| c@)
}

/// Which search last ran on the query, if its labels are still there.
pub enum Search {
    Idle,
    PointToPoint,
    ToPinnedTargets,
    ToPinnedSources,
}

/// The state of an engine query object.
pub struct QueryState {
    /// Number of nodes of the hierarchy the query works on.
    pub node_count: nat,
    /// Added sources with their initial distances, in order.
    pub sources: Seq<(u32, u32)>,
    /// Added targets with their initial distances, in order.
    pub targets: Seq<(u32, u32)>,
    /// Pinned targets, in pinning order (empty when none are pinned).
    pub pinned_targets: Seq<u32>,
    /// Pinned sources, in pinning order (empty when none are pinned).
    pub pinned_sources: Seq<u32>,
    /// The search whose labels the query holds.
    pub search: Search,
}

/// A freshly constructed (or reset) query on a hierarchy of `n` nodes.
pub open spec fn fresh(n: nat) -> QueryState {
    QueryState {
        node_count: n,
        sources: Seq::empty(),
        targets: Seq::empty(),
        pinned_targets: Seq::empty(),
        pinned_sources: Seq::empty(),
        search: Search::Idle,
    }
}

/// Every node id of `s` is a node of the hierarchy.
pub open spec fn nodes_below(s: Seq<u32>, n: nat) -> bool {
    forall|i: int| 0 <= i < s.len() ==> (#[trigger] s[i]) < n
}

/// Every node of the pairs `(node, dist)` is a node of the hierarchy.
pub open spec fn pair_nodes_below(s: Seq<(u32, u32)>, n: nat) -> bool {
    forall|i: int| 0 <= i < s.len() ==> (#[trigger] s[i]).0 < n
}

/// Whether the engine accepts `op` in state `st`, as its documentation states.
pub open spec fn call_allowed(st: QueryState, op: QueryOp) -> bool {
    match op {
        QueryOp::AddSource(s, _) => st.search is Idle && s < st.node_count && st.pinned_sources.len() == 0,
        QueryOp::AddTarget(t, _) => st.search is Idle && t < st.node_count && st.pinned_targets.len() == 0,
        QueryOp::Run => {
            &&& st.search is Idle
            &&& st.sources.len() > 0
            &&& st.targets.len() > 0
            &&& st.pinned_targets.len() == 0
            &&& st.pinned_sources.len() == 0
        },
        QueryOp::PinTargets(t) => st == fresh(st.node_count) && t.len() > 0 && nodes_below(
            t,
            st.node_count,
        ),
        QueryOp::RunToPinnedTargets => {
            &&& st.search is Idle
            &&& st.pinned_targets.len() > 0
            &&& st.sources.len() > 0
        },
        QueryOp::ReadDistancesToTargets => st.search is ToPinnedTargets,
        QueryOp::ResetSource => true,
        QueryOp::PinSources(s) => st == fresh(st.node_count) && s.len() > 0 && nodes_below(
            s,
            st.node_count,
        ),
        QueryOp::RunToPinnedSources => {
            &&& st.search is Idle
            &&& st.pinned_sources.len() > 0
            &&& st.targets.len() > 0
        },
        QueryOp::ReadDistancesToSources => st.search is ToPinnedSources,
        QueryOp::ResetTarget => true,
        QueryOp::Reset => true,
    }
}

/// The state that `op` leaves behind.
pub open spec fn after(st: QueryState, op: QueryOp) -> QueryState {
    match op {
        QueryOp::AddSource(s, d) => QueryState { sources: st.sources.push((s, d)), ..st },
        QueryOp::AddTarget(t, d) => QueryState { targets: st.targets.push((t, d)), ..st },
        QueryOp::Run => QueryState { search: Search::PointToPoint, ..st },
        QueryOp::PinTargets(t) => QueryState { pinned_targets: t, ..st },
        QueryOp::RunToPinnedTargets => QueryState { search: Search::ToPinnedTargets, ..st },
        QueryOp::ReadDistancesToTargets => st,
        QueryOp::ResetSource => QueryState { sources: Seq::empty(), search: Search::Idle, ..st },
        QueryOp::PinSources(s) => QueryState { pinned_sources: s, ..st },
        QueryOp::RunToPinnedSources => QueryState { search: Search::ToPinnedSources, ..st },
        QueryOp::ReadDistancesToSources => st,
        QueryOp::ResetTarget => QueryState { targets: Seq::empty(), search: Search::Idle, ..st },
        QueryOp::Reset => fresh(st.node_count),
    }
}

/// The state after a whole plan, its calls made from first to last.
pub open spec fn after_plan(st: QueryState, plan: Seq<QueryOp>) -> QueryState
    decreases plan.len(),
{
    if plan.len() == 0 {
        st
    } else {
        after(after_plan(st, plan.drop_last()), plan.last())
    }
}

/// Whether the engine accepts every call of the plan when it comes.
pub open spec fn plan_allowed(st: QueryState, plan: Seq<QueryOp>) -> bool
    decreases plan.len(),
{
    if plan.len() == 0 {
        true
    } else {
        plan_allowed(st, plan.drop_last()) && call_allowed(
            after_plan(st, plan.drop_last()),
            plan.last(),
        )
    }
}

/// Extending an accepted plan by one accepted call keeps it accepted.
pub proof fn lemma_plan_push(st: QueryState, plan: Seq<QueryOp>, op: QueryOp)
    requires
        plan_allowed(st, plan),
        call_allowed(after_plan(st, plan), op),
    ensures
        plan_allowed(st, plan.push(op)),
        after_plan(st, plan.push(op)) == after(after_plan(st, plan), op),
{
    assert(plan.push(op).drop_last() =~= plan);
}

/// The calls that add `pairs` as sources, in order.
pub open spec fn source_ops(pairs: Seq<(u32, u32)>) -> Seq<QueryOp> {
    pairs.map_values(|p: (u32, u32)| QueryOp::AddSource(p.0, p.1))
}

/// The calls that add `pairs` as targets, in order.
pub open spec fn target_ops(pairs: Seq<(u32, u32)>) -> Seq<QueryOp> {
    pairs.map_values(|p: (u32, u32)| QueryOp::AddTarget(p.0, p.1))
}

/// A plan made of two parts runs the second part from where the first ends.
pub proof fn lemma_plan_concat(st: QueryState, p: Seq<QueryOp>, q: Seq<QueryOp>)
    ensures
        after_plan(st, p + q) == after_plan(after_plan(st, p), q),
        plan_allowed(st, p + q) == (plan_allowed(st, p) && plan_allowed(after_plan(st, p), q)),
    decreases q.len(),
{
    if q.len() == 0 {
        assert(p + q =~= p);
    } else {
        lemma_plan_concat(st, p, q.drop_last());
        assert((p + q).drop_last() =~= p + q.drop_last());
    }
}

/// `st` with `sources` added.
pub open spec fn with_sources(st: QueryState, sources: Seq<(u32, u32)>) -> QueryState {
    QueryState { sources: sources, ..st }
}

/// `st` with `targets` added.
pub open spec fn with_targets(st: QueryState, targets: Seq<(u32, u32)>) -> QueryState {
    QueryState { targets: targets, ..st }
}

/// The calls `ops`, adding each pair of `pairs` in order (as sources or as
/// targets), are accepted in `st` and leave the pairs appended.
pub proof fn lemma_add_batch(st: QueryState, pairs: Seq<(u32, u32)>, ops: Seq<QueryOp>, as_sources: bool)
    requires
        ops.len() == pairs.len(),
        forall|i: int|
            0 <= i < ops.len() ==> #[trigger] ops[i] == if as_sources {
                QueryOp::AddSource(pairs[i].0, pairs[i].1)
            } else {
                QueryOp::AddTarget(pairs[i].0, pairs[i].1)
            },
        st.search is Idle,
        as_sources ==> st.pinned_sources.len() == 0,
        !as_sources ==> st.pinned_targets.len() == 0,
        pair_nodes_below(pairs, st.node_count),
    ensures
        plan_allowed(st, ops),
        after_plan(st, ops) == if as_sources {
            with_sources(st, st.sources + pairs)
        } else {
            with_targets(st, st.targets + pairs)
        },
    decreases pairs.len(),
{
    if pairs.len() == 0 {
        assert(st.sources + pairs =~= st.sources);
        assert(st.targets + pairs =~= st.targets);
    } else {
        let rest = pairs.drop_last();
        let pre = ops.drop_last();
        assert forall|i: int| 0 <= i < rest.len() implies (#[trigger] rest[i]).0 < st.node_count by {
            assert(rest[i] == pairs[i]);
        }
        assert forall|i: int| 0 <= i < pre.len() implies #[trigger] pre[i] == if as_sources {
            QueryOp::AddSource(rest[i].0, rest[i].1)
        } else {
            QueryOp::AddTarget(rest[i].0, rest[i].1)
        } by {
            assert(pre[i] == ops[i]);
            assert(rest[i] == pairs[i]);
        }
        lemma_add_batch(st, rest, pre, as_sources);
        let last = pairs.last();
        assert(ops.last() == ops[ops.len() - 1]);
        assert(last.0 < st.node_count);
        assert(st.sources + rest.push(last) =~= (st.sources + rest).push(last));
        assert(st.targets + rest.push(last) =~= (st.targets + rest).push(last));
        assert(rest.push(last) =~= pairs);
    }
}

/// Re-pinning: resetting a query and pinning a set is accepted in any state and
/// ends exactly where pinning that set on a freshly constructed query ends.
pub proof fn law_repin_matches_fresh(st: QueryState, pin: QueryOp)
    requires
        call_allowed(fresh(st.node_count), pin),
    ensures
        plan_allowed(st, seq![QueryOp::Reset, pin]),
        after_plan(st, seq![QueryOp::Reset, pin]) == after(fresh(st.node_count), pin),
{
    let p0 = Seq::<QueryOp>::empty();
    lemma_plan_push(st, p0, QueryOp::Reset);
    assert(p0.push(QueryOp::Reset) =~= seq![QueryOp::Reset]);
    lemma_plan_push(st, seq![QueryOp::Reset], pin);
    assert(seq![QueryOp::Reset].push(pin) =~= seq![QueryOp::Reset, pin]);
}

/// `st` with `sources` and `targets` added and the point-to-point search done.
pub open spec fn searched_between(st: QueryState, sources: Seq<(u32, u32)>, targets: Seq<(u32, u32)>) -> QueryState {
    QueryState { sources: sources, targets: targets, search: Search::PointToPoint, ..st }
}

/// The calls of one point-to-point query: add the sources, add the targets,
/// search, release.
pub open spec fn point_to_point_plan(sources: Seq<(u32, u32)>, targets: Seq<(u32, u32)>) -> Seq<QueryOp> {
    source_ops(sources) + target_ops(targets) + seq![QueryOp::Run, QueryOp::Reset]
}

/// The life of a point-to-point query: on a fresh query, adding the sources,
/// then the targets, then running and releasing is accepted call by call; the
/// search sees exactly the added sources and targets, and the query ends fresh.
pub proof fn law_point_to_point_cycle(n: nat, sources: Seq<(u32, u32)>, targets: Seq<(u32, u32)>)
    requires
        sources.len() > 0,
        targets.len() > 0,
        pair_nodes_below(sources, n),
        pair_nodes_below(targets, n),
    ensures
        plan_allowed(fresh(n), point_to_point_plan(sources, targets)),
        after_plan(fresh(n), point_to_point_plan(sources, targets).take(sources.len() + targets.len() + 1int))
            == searched_between(fresh(n), sources, targets),
        after_plan(fresh(n), point_to_point_plan(sources, targets)) == fresh(n),
{
    let st = fresh(n);
    let a = source_ops(sources);
    let b = target_ops(targets);
    lemma_add_batch(st, sources, a, true);
    assert(st.sources + sources =~= sources);
    let st1 = with_sources(st, sources);
    lemma_add_batch(st1, targets, b, false);
    assert(st1.targets + targets =~= targets);
    lemma_plan_concat(st, a, b);
    let ab = a + b;
    lemma_plan_push(st, ab, QueryOp::Run);
    lemma_plan_push(st, ab.push(QueryOp::Run), QueryOp::Reset);
    let plan = point_to_point_plan(sources, targets);
    assert(plan =~= ab.push(QueryOp::Run).push(QueryOp::Reset));
    assert(plan.take(sources.len() + targets.len() + 1int) =~= ab.push(QueryOp::Run));
    assert(after_plan(st, ab.push(QueryOp::Run)) =~~= searched_between(st, sources, targets));
}

} // verus!
