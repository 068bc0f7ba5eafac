//! One-to-many and many-to-one queries with a pinned node set.
use vstd::prelude::*;
use crate::engine::{
    after, after_plan, call_allowed, fresh, law_repin_matches_fresh, lemma_add_batch,
    lemma_plan_push, nodes_below, ops, pair_nodes_below, plan_allowed, source_ops, target_ops,
    add_calls, pair_nodes_all_below, QueryCall, QueryOp, QueryState, Search,
};
use crate::error::InputError;
use crate::metric::CCHMetric;
use crate::order::all_below;

verus! {

/// The outcome of the checks on a pinned set, in the order they are made: the
/// set is not empty, then every node is a node of the hierarchy.
pub open spec fn pin_result(n: nat, nodes: Seq<u32>, empty: InputError, out_of_range: InputError) -> Result<(), InputError> {
    if nodes.len() == 0 {
        Err(empty)
    } else if !nodes_below(nodes, n) {
        Err(out_of_range)
    } else {
        Ok(())
    }
}

/// The outcome of the checks on a batch of `(node, initial_dist)` pairs.
pub open spec fn batch_result(n: nat, pairs: Seq<(u32, u32)>, empty: InputError, out_of_range: InputError) -> Result<(), InputError> {
    if pairs.len() == 0 {
        Err(empty)
    } else if !pair_nodes_below(pairs, n) {
        Err(out_of_range)
    } else {
        Ok(())
    }
}

/// The engine calls that answer one batch of a one-to-many query: add the
/// sources in order, search, read the distances, drop the sources.
pub open spec fn one_to_many_plan(sources: Seq<(u32, u32)>) -> Seq<QueryOp> {
    source_ops(sources) + seq![
        QueryOp::RunToPinnedTargets,
        QueryOp::ReadDistancesToTargets,
        QueryOp::ResetSource,
    ]
}

/// The engine calls that answer one batch of a many-to-one query.
pub open spec fn many_to_one_plan(targets: Seq<(u32, u32)>) -> Seq<QueryOp> {
    target_ops(targets) + seq![
        QueryOp::RunToPinnedSources,
        QueryOp::ReadDistancesToSources,
        QueryOp::ResetTarget,
    ]
}

/// `st` with the one-to-many search from `sources` done.
pub open spec fn searched_from(st: QueryState, sources: Seq<(u32, u32)>) -> QueryState {
    QueryState { sources: sources, search: Search::ToPinnedTargets, ..st }
}

/// `st` with the many-to-one search to `targets` done.
pub open spec fn searched_to(st: QueryState, targets: Seq<(u32, u32)>) -> QueryState {
    QueryState { targets: targets, search: Search::ToPinnedSources, ..st }
}

/// A copy of a node list.
fn copy_nodes(nodes: &[u32]) -> (r: Vec<u32>)
    ensures
        r@ == nodes@,
{
    let n = nodes.len();
    let mut r: Vec<u32> = Vec::new();
    let mut i: usize = 0;
    while i < n
        invariant
            n == nodes@.len(),
            i <= n,
            r@ == nodes@.take(i as int),
        decreases n - i,
    {
        r.push(nodes[i]);
        assert(nodes@.take(i + 1) =~= nodes@.take(i as int).push(nodes@[i as int]));
        i = i + 1;
    }
    assert(nodes@.take(n as int) =~= nodes@);
    r
}

/// A reusable one-to-many query with a fixed (pinned) set of targets.
/// Distances are answered per pinned entry, duplicates included, in pinning order.
pub struct CCHOneToMany<'a> {
    metric: &'a CCHMetric<'a>,
    target_count: usize,
    engine: Ghost<QueryState>,
}

/// The state of a one-to-many query between two batches: targets pinned,
/// nothing else.
pub open spec fn targets_pinned(n: nat, targets: Seq<u32>) -> QueryState {
    after(fresh(n), QueryOp::PinTargets(targets))
}

/// The state of a many-to-one query between two batches: sources pinned,
/// nothing else.
pub open spec fn sources_pinned(n: nat, sources: Seq<u32>) -> QueryState {
    after(fresh(n), QueryOp::PinSources(sources))
}

impl<'a> CCHOneToMany<'a> {
    /// Well-formed: the query rests with a valid, non-empty target set pinned.
    pub closed spec fn wf(&self) -> bool {
        let st = self.engine@;
        &&& self.metric.wf()
        &&& st == targets_pinned(self.metric.graph().nodes(), st.pinned_targets)
        &&& st.pinned_targets.len() == self.target_count
        &&& st.pinned_targets.len() > 0
        &&& nodes_below(st.pinned_targets, st.node_count)
    }

    /// The state of the engine's query object.
    pub closed spec fn state(&self) -> QueryState {
        self.engine@
    }

    /// The metric the query runs on.
    pub closed spec fn metric(&self) -> CCHMetric<'a> {
        *self.metric
    }

    /// A well-formed query works on its metric's hierarchy: the engine state
    /// has the metric's node count, and the metric is well-formed.
    pub proof fn lemma_node_count(&self)
        requires
            self.wf(),
        ensures
            self.state().node_count == self.metric().graph().nodes(),
            self.metric().wf(),
    {
    }

    /// Checks a target set for `metric`; `Ok` exactly when `new` accepts it.
    pub fn check_targets(metric: &CCHMetric<'a>, targets: &[u32]) -> (r: Result<(), InputError>)
        requires
            metric.wf(),
        ensures
            r == pin_result(
                metric.graph().nodes(),
                targets@,
                InputError::NoTargets,
                InputError::TargetOutOfRange,
            ),
    {
        if targets.len() == 0 {
            Err(InputError::NoTargets)
        } else if !all_below(targets, metric.cch().node_count()) {
            Err(InputError::TargetOutOfRange)
        } else {
            Ok(())
        }
    }

    /// A one-to-many query on `metric` with `targets` pinned, and the engine
    /// call that pins them on a freshly constructed engine query.
    pub fn new(metric: &'a CCHMetric<'a>, targets: &[u32]) -> (r: (Self, QueryCall))
        requires
            metric.wf(),
            pin_result(metric.graph().nodes(), targets@, InputError::NoTargets, InputError::TargetOutOfRange) is Ok,
        ensures
            r.0.wf(),
            r.0.metric() == *metric,
            r.1@ == QueryOp::PinTargets(targets@),
            call_allowed(fresh(metric.graph().nodes()), r.1@),
            r.0.state() == after(fresh(metric.graph().nodes()), r.1@),
    {
        let ghost st = targets_pinned(metric.graph().nodes(), targets@);
        (
            CCHOneToMany { metric, target_count: targets.len(), engine: Ghost(st) },
            QueryCall::PinTargets(copy_nodes(targets)),
        )
    }

    /// Number of pinned targets, which is the length of every answer.
    pub fn target_count(&self) -> (r: usize)
        requires
            self.wf(),
        ensures
            r == self.state().pinned_targets.len(),
    {
        self.target_count
    }

    /// Replaces the pinned targets: the engine query is reset and the new set
    /// pinned, which leaves it as a fresh construction with `targets` would.
    pub fn repin_targets(&mut self, targets: &[u32]) -> (plan: Vec<QueryCall>)
        requires
            old(self).wf(),
            pin_result(old(self).metric().graph().nodes(), targets@, InputError::NoTargets, InputError::TargetOutOfRange) is Ok,
        ensures
            final(self).wf(),
            final(self).metric() == old(self).metric(),
            ops(plan@) == seq![QueryOp::Reset, QueryOp::PinTargets(targets@)],
            plan_allowed(old(self).state(), ops(plan@)),
            final(self).state() == after_plan(old(self).state(), ops(plan@)),
            final(self).state() == targets_pinned(old(self).metric().graph().nodes(), targets@),
    {
        let ghost st0 = self.engine@;
        let mut plan: Vec<QueryCall> = Vec::new();
        plan.push(QueryCall::Reset);
        plan.push(QueryCall::PinTargets(copy_nodes(targets)));
        proof {
            assert(ops(plan@) =~= seq![QueryOp::Reset, QueryOp::PinTargets(targets@)]);
            law_repin_matches_fresh(st0, QueryOp::PinTargets(targets@));
        }
        self.target_count = targets.len();
        self.engine = Ghost(targets_pinned(st0.node_count, targets@));
        plan
    }

    /// Checks a batch of `(source, initial_dist)` pairs; `Ok` exactly when
    /// `distances_from_multi` accepts it.
    pub fn check_sources(&self, sources: &[(u32, u32)]) -> (r: Result<(), InputError>)
        requires
            self.wf(),
        ensures
            r == batch_result(
                self.state().node_count,
                sources@,
                InputError::NoSources,
                InputError::SourceOutOfRange,
            ),
    {
        if sources.len() == 0 {
            Err(InputError::NoSources)
        } else if !pair_nodes_all_below(sources, self.metric.cch().node_count()) {
            Err(InputError::SourceOutOfRange)
        } else {
            Ok(())
        }
    }

    /// The engine calls that answer a multi-source batch: for each pinned
    /// target the engine then reports the minimum over the pairs of
    /// `initial_dist + dist(source, target)`. The plan is accepted in the
    /// current state, its read sees exactly these sources, and it returns the
    /// query to "targets pinned, no sources".
    pub fn distances_from_multi(&self, sources: &[(u32, u32)]) -> (plan: Vec<QueryCall>)
        requires
            self.wf(),
            batch_result(self.state().node_count, sources@, InputError::NoSources, InputError::SourceOutOfRange) is Ok,
        ensures
            ops(plan@) == one_to_many_plan(sources@),
            plan_allowed(self.state(), ops(plan@)),
            after_plan(self.state(), ops(plan@).take(sources@.len() as int + 2)) == searched_from(
                self.state(),
                sources@,
            ),
            after_plan(self.state(), ops(plan@)) == self.state(),
    {
        let ghost st = self.engine@;
        let n = sources.len();
        let mut plan = add_calls(sources, true);
        proof {
            lemma_add_batch(st, sources@, ops(plan@), true);
            assert(st.sources + sources@ =~= sources@);
        }
        let ghost adds = ops(plan@);
        plan.push(QueryCall::RunToPinnedTargets);
        plan.push(QueryCall::ReadDistancesToTargets);
        plan.push(QueryCall::ResetSource);
        proof {
            assert(adds.take(n as int) =~= adds);
            assert(sources@.take(n as int) =~= sources@);
            let p = ops(plan@);
            assert(p.take(n as int) =~= adds);
            assert(p.take(n + 1) =~= adds.push(QueryOp::RunToPinnedTargets));
            assert(p.take(n + 2) =~= p.take(n + 1).push(QueryOp::ReadDistancesToTargets));
            assert(p =~= p.take(n + 2).push(QueryOp::ResetSource));
            lemma_plan_push(st, adds, QueryOp::RunToPinnedTargets);
            lemma_plan_push(st, p.take(n + 1), QueryOp::ReadDistancesToTargets);
            lemma_plan_push(st, p.take(n + 2), QueryOp::ResetSource);
            assert(after_plan(st, p) =~~= st);
            assert(p =~= one_to_many_plan(sources@));
        }
        plan
    }

    /// The engine calls that answer the distances from one `source`: the batch
    /// `[(source, 0)]`.
    pub fn distances_from(&self, source: u32) -> (plan: Vec<QueryCall>)
        requires
            self.wf(),
            source < self.state().node_count,
        ensures
            ops(plan@) == one_to_many_plan(seq![(source, 0u32)]),
            plan_allowed(self.state(), ops(plan@)),
            after_plan(self.state(), ops(plan@)) == self.state(),
    {
        let batch = [(source, 0u32)];
        proof {
            assert(batch@ =~= seq![(source, 0u32)]);
        }
        self.distances_from_multi(&batch)
    }
}

/// A reusable many-to-one query with a fixed (pinned) set of sources.
/// Distances are answered per pinned entry, duplicates included, in pinning order.
pub struct CCHManyToOne<'a> {
    metric: &'a CCHMetric<'a>,
    source_count: usize,
    engine: Ghost<QueryState>,
}

impl<'a> CCHManyToOne<'a> {
    /// Well-formed: the query rests with a valid, non-empty source set pinned.
    pub closed spec fn wf(&self) -> bool {
        let st = self.engine@;
        &&& self.metric.wf()
        &&& st == sources_pinned(self.metric.graph().nodes(), st.pinned_sources)
        &&& st.pinned_sources.len() == self.source_count
        &&& st.pinned_sources.len() > 0
        &&& nodes_below(st.pinned_sources, st.node_count)
    }

    /// The state of the engine's query object.
    pub closed spec fn state(&self) -> QueryState {
        self.engine@
    }

    /// The metric the query runs on.
    pub closed spec fn metric(&self) -> CCHMetric<'a> {
        *self.metric
    }

    /// A well-formed query works on its metric's hierarchy: the engine state
    /// has the metric's node count, and the metric is well-formed.
    pub proof fn lemma_node_count(&self)
        requires
            self.wf(),
        ensures
            self.state().node_count == self.metric().graph().nodes(),
            self.metric().wf(),
    {
    }

    /// Checks a source set for `metric`; `Ok` exactly when `new` accepts it.
    pub fn check_sources(metric: &CCHMetric<'a>, sources: &[u32]) -> (r: Result<(), InputError>)
        requires
            metric.wf(),
        ensures
            r == pin_result(
                metric.graph().nodes(),
                sources@,
                InputError::NoSources,
                InputError::SourceOutOfRange,
            ),
    {
        if sources.len() == 0 {
            Err(InputError::NoSources)
        } else if !all_below(sources, metric.cch().node_count()) {
            Err(InputError::SourceOutOfRange)
        } else {
            Ok(())
        }
    }

    /// A many-to-one query on `metric` with `sources` pinned, and the engine
    /// call that pins them on a freshly constructed engine query.
    pub fn new(metric: &'a CCHMetric<'a>, sources: &[u32]) -> (r: (Self, QueryCall))
        requires
            metric.wf(),
            pin_result(metric.graph().nodes(), sources@, InputError::NoSources, InputError::SourceOutOfRange) is Ok,
        ensures
            r.0.wf(),
            r.0.metric() == *metric,
            r.1@ == QueryOp::PinSources(sources@),
            call_allowed(fresh(metric.graph().nodes()), r.1@),
            r.0.state() == after(fresh(metric.graph().nodes()), r.1@),
    {
        let ghost st = sources_pinned(metric.graph().nodes(), sources@);
        (
            CCHManyToOne { metric, source_count: sources.len(), engine: Ghost(st) },
            QueryCall::PinSources(copy_nodes(sources)),
        )
    }

    /// Number of pinned sources, which is the length of every answer.
    pub fn source_count(&self) -> (r: usize)
        requires
            self.wf(),
        ensures
            r == self.state().pinned_sources.len(),
    {
        self.source_count
    }

    /// Replaces the pinned sources: the engine query is reset and the new set
    /// pinned, which leaves it as a fresh construction with `sources` would.
    pub fn repin_sources(&mut self, sources: &[u32]) -> (plan: Vec<QueryCall>)
        requires
            old(self).wf(),
            pin_result(old(self).metric().graph().nodes(), sources@, InputError::NoSources, InputError::SourceOutOfRange) is Ok,
        ensures
            final(self).wf(),
            final(self).metric() == old(self).metric(),
            ops(plan@) == seq![QueryOp::Reset, QueryOp::PinSources(sources@)],
            plan_allowed(old(self).state(), ops(plan@)),
            final(self).state() == after_plan(old(self).state(), ops(plan@)),
            final(self).state() == sources_pinned(old(self).metric().graph().nodes(), sources@),
    {
        let ghost st0 = self.engine@;
        let mut plan: Vec<QueryCall> = Vec::new();
        plan.push(QueryCall::Reset);
        plan.push(QueryCall::PinSources(copy_nodes(sources)));
        proof {
            assert(ops(plan@) =~= seq![QueryOp::Reset, QueryOp::PinSources(sources@)]);
            law_repin_matches_fresh(st0, QueryOp::PinSources(sources@));
        }
        self.source_count = sources.len();
        self.engine = Ghost(sources_pinned(st0.node_count, sources@));
        plan
    }

    /// Checks a batch of `(target, initial_dist)` pairs; `Ok` exactly when
    /// `distances_to_multi` accepts it.
    pub fn check_targets(&self, targets: &[(u32, u32)]) -> (r: Result<(), InputError>)
        requires
            self.wf(),
        ensures
            r == batch_result(
                self.state().node_count,
                targets@,
                InputError::NoTargets,
                InputError::TargetOutOfRange,
            ),
    {
        if targets.len() == 0 {
            Err(InputError::NoTargets)
        } else if !pair_nodes_all_below(targets, self.metric.cch().node_count()) {
            Err(InputError::TargetOutOfRange)
        } else {
            Ok(())
        }
    }

    /// The engine calls that answer a multi-target batch: for each pinned
    /// source the engine then reports the minimum over the pairs of
    /// `dist(source, target) + initial_dist`. The plan is accepted in the
    /// current state, its read sees exactly these targets, and it returns the
    /// query to "sources pinned, no targets".
    pub fn distances_to_multi(&self, targets: &[(u32, u32)]) -> (plan: Vec<QueryCall>)
        requires
            self.wf(),
            batch_result(self.state().node_count, targets@, InputError::NoTargets, InputError::TargetOutOfRange) is Ok,
        ensures
            ops(plan@) == many_to_one_plan(targets@),
            plan_allowed(self.state(), ops(plan@)),
            after_plan(self.state(), ops(plan@).take(targets@.len() as int + 2)) == searched_to(
                self.state(),
                targets@,
            ),
            after_plan(self.state(), ops(plan@)) == self.state(),
    {
        let ghost st = self.engine@;
        let n = targets.len();
        let mut plan = add_calls(targets, false);
        proof {
            lemma_add_batch(st, targets@, ops(plan@), false);
            assert(st.targets + targets@ =~= targets@);
        }
        let ghost adds = ops(plan@);
        plan.push(QueryCall::RunToPinnedSources);
        plan.push(QueryCall::ReadDistancesToSources);
        plan.push(QueryCall::ResetTarget);
        proof {
            assert(adds.take(n as int) =~= adds);
            assert(targets@.take(n as int) =~= targets@);
            let p = ops(plan@);
            assert(p.take(n as int) =~= adds);
            assert(p.take(n + 1) =~= adds.push(QueryOp::RunToPinnedSources));
            assert(p.take(n + 2) =~= p.take(n + 1).push(QueryOp::ReadDistancesToSources));
            assert(p =~= p.take(n + 2).push(QueryOp::ResetTarget));
            lemma_plan_push(st, adds, QueryOp::RunToPinnedSources);
            lemma_plan_push(st, p.take(n + 1), QueryOp::ReadDistancesToSources);
            lemma_plan_push(st, p.take(n + 2), QueryOp::ResetTarget);
            assert(after_plan(st, p) =~~= st);
            assert(p =~= many_to_one_plan(targets@));
        }
        plan
    }

    /// The engine calls that answer the distances to one `target`: the batch
    /// `[(target, 0)]`.
    pub fn distances_to(&self, target: u32) -> (plan: Vec<QueryCall>)
        requires
            self.wf(),
            target < self.state().node_count,
        ensures
            ops(plan@) == many_to_one_plan(seq![(target, 0u32)]),
            plan_allowed(self.state(), ops(plan@)),
            after_plan(self.state(), ops(plan@)) == self.state(),
    {
        let batch = [(target, 0u32)];
        proof {
            assert(batch@ =~= seq![(target, 0u32)]);
        }
        self.distances_to_multi(&batch)
    }
}

} // verus!
