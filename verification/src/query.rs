//! Point-to-point (and multi-source / multi-target) queries.
use vstd::prelude::*;
use crate::engine::{
    add_calls, pair_nodes_all_below, after, after_plan, call_allowed, fresh, lemma_add_batch, lemma_plan_concat,
    lemma_plan_push, ops, pair_nodes_below, plan_allowed, searched_between, source_ops, target_ops,
    with_sources, QueryCall, QueryOp, QueryState,
};
use crate::error::InputError;
use crate::metric::CCHMetric;

verus! {

/// The outcome of the checks on a whole batch run on an empty query, in the
/// order they come when the pairs are added one by one and then run: every
/// source, every target, then at least one of each.
pub open spec fn batch_run_result(n: nat, sources: Seq<(u32, u32)>, targets: Seq<(u32, u32)>) -> Result<(), InputError> {
    if !pair_nodes_below(sources, n) {
        Err(InputError::SourceOutOfRange)
    } else if !pair_nodes_below(targets, n) {
        Err(InputError::TargetOutOfRange)
    } else if sources.len() == 0 || targets.len() == 0 {
        Err(InputError::QueryNotReady)
    } else {
        Ok(())
    }
}

/// The calls of a batch run: add the sources, add the targets, search.
pub open spec fn batch_run_plan(sources: Seq<(u32, u32)>, targets: Seq<(u32, u32)>) -> Seq<QueryOp> {
    source_ops(sources) + target_ops(targets) + seq![QueryOp::Run]
}

/// A reusable shortest-path query bound to a metric. It keeps which sources and
/// targets were added, and hands the engine one call per step.
pub struct CCHQuery<'a> {
    metric: &'a CCHMetric<'a>,
    has_source: bool,
    has_target: bool,
    running: bool,
    engine: Ghost<QueryState>,
}

impl<'a> CCHQuery<'a> {
    /// Well-formed: the flags agree with the engine state, which holds no pins.
    pub closed spec fn wf(&self) -> bool {
        let st = self.engine@;
        &&& self.metric.wf()
        &&& st.node_count == self.metric.graph().nodes()
        &&& st.pinned_targets.len() == 0
        &&& st.pinned_sources.len() == 0
        &&& self.has_source == (st.sources.len() > 0)
        &&& self.has_target == (st.targets.len() > 0)
        &&& self.running == (st.search is PointToPoint)
        &&& (st.search is Idle || st.search is PointToPoint)
        &&& (st.search is PointToPoint ==> st.sources.len() > 0 && st.targets.len() > 0)
        &&& pair_nodes_below(st.sources, st.node_count)
        &&& pair_nodes_below(st.targets, st.node_count)
    }

    /// The state of the engine's query object.
    pub closed spec fn state(&self) -> QueryState {
        self.engine@
    }

    /// The metric the query runs on.
    pub closed spec fn metric(&self) -> CCHMetric<'a> {
        *self.metric
    }

    /// A well-formed query works on its metric's hierarchy: the engine state
    /// has the metric's node count, and the metric is well-formed.
    pub proof fn lemma_node_count(&self)
        requires
            self.wf(),
        ensures
            self.state().node_count == self.metric().graph().nodes(),
            self.metric().wf(),
    {
    }

    /// A query on `metric`, with no source and no target.
    pub fn new(metric: &'a CCHMetric<'a>) -> (q: Self)
        requires
            metric.wf(),
        ensures
            q.wf(),
            q.metric() == *metric,
            q.state() == fresh(metric.graph().nodes()),
    {
        CCHQuery {
            metric,
            has_source: false,
            has_target: false,
            running: false,
            engine: Ghost(fresh(metric.graph().nodes())),
        }
    }

    /// Checks a source node; `Ok` exactly when it is a node of the hierarchy.
    pub fn check_source(&self, s: u32) -> (r: Result<(), InputError>)
        requires
            self.wf(),
        ensures
            r is Ok <==> s < self.state().node_count,
            r is Err ==> r == Err::<(), InputError>(InputError::SourceOutOfRange),
    {
        if (s as usize) < self.metric.cch().node_count() {
            Ok(())
        } else {
            Err(InputError::SourceOutOfRange)
        }
    }

    /// Checks a target node; `Ok` exactly when it is a node of the hierarchy.
    pub fn check_target(&self, t: u32) -> (r: Result<(), InputError>)
        requires
            self.wf(),
        ensures
            r is Ok <==> t < self.state().node_count,
            r is Err ==> r == Err::<(), InputError>(InputError::TargetOutOfRange),
    {
        if (t as usize) < self.metric.cch().node_count() {
            Ok(())
        } else {
            Err(InputError::TargetOutOfRange)
        }
    }

    /// Adds source `s` with initial distance `dist` (0 for a plain shortest
    /// path); returns the engine call that does it.
    pub fn add_source(&mut self, s: u32, dist: u32) -> (c: QueryCall)
        requires
            old(self).wf(),
            s < old(self).state().node_count,
            !old(self).is_running_spec(),
        ensures
            final(self).wf(),
            c@ == QueryOp::AddSource(s, dist),
            call_allowed(old(self).state(), c@),
            final(self).state() == after(old(self).state(), c@),
            final(self).metric() == old(self).metric(),
    {
        self.has_source = true;
        self.engine = Ghost(after(self.engine@, QueryOp::AddSource(s, dist)));
        QueryCall::AddSource(s, dist)
    }

    /// Adds target `t` with initial distance `dist`; returns the engine call
    /// that does it.
    pub fn add_target(&mut self, t: u32, dist: u32) -> (c: QueryCall)
        requires
            old(self).wf(),
            t < old(self).state().node_count,
            !old(self).is_running_spec(),
        ensures
            final(self).wf(),
            c@ == QueryOp::AddTarget(t, dist),
            call_allowed(old(self).state(), c@),
            final(self).state() == after(old(self).state(), c@),
            final(self).metric() == old(self).metric(),
    {
        self.has_target = true;
        self.engine = Ghost(after(self.engine@, QueryOp::AddTarget(t, dist)));
        QueryCall::AddTarget(t, dist)
    }

    /// At least one source and one target were added.
    pub open spec fn is_ready_spec(&self) -> bool {
        self.state().sources.len() > 0 && self.state().targets.len() > 0
    }

    /// A search ran and its result has not been released.
    pub open spec fn is_running_spec(&self) -> bool {
        self.state().search is PointToPoint
    }

    /// Whether at least one source and one target were added.
    pub fn is_ready(&self) -> (r: bool)
        requires
            self.wf(),
        ensures
            r == self.is_ready_spec(),
    {
        self.has_source && self.has_target
    }

    /// Whether a search ran whose result was not released yet.
    pub fn is_running(&self) -> (r: bool)
        requires
            self.wf(),
        ensures
            r == self.is_running_spec(),
    {
        self.running
    }

    /// Whether no source and no target are added.
    pub fn is_empty(&self) -> (r: bool)
        requires
            self.wf(),
        ensures
            r == (self.state().sources.len() == 0 && self.state().targets.len() == 0),
    {
        !self.has_source && !self.has_target
    }

    /// Checks that the query can run; `Ok` exactly when a source and a target
    /// were added.
    pub fn check_ready(&self) -> (r: Result<(), InputError>)
        requires
            self.wf(),
        ensures
            r is Ok <==> self.is_ready_spec(),
            r is Err ==> r == Err::<(), InputError>(InputError::QueryNotReady),
    {
        if self.is_ready() {
            Ok(())
        } else {
            Err(InputError::QueryNotReady)
        }
    }

    /// Starts the search between the added sources and targets; returns the
    /// engine call that runs it.
    pub fn run(&mut self) -> (c: QueryCall)
        requires
            old(self).wf(),
            old(self).is_ready_spec(),
            !old(self).is_running_spec(),
        ensures
            final(self).wf(),
            c@ == QueryOp::Run,
            call_allowed(old(self).state(), c@),
            final(self).state() == after(old(self).state(), c@),
            final(self).is_running_spec(),
            final(self).metric() == old(self).metric(),
    {
        self.running = true;
        self.engine = Ghost(after(self.engine@, QueryOp::Run));
        QueryCall::Run
    }

    /// Checks a batch run of `sources` and `targets` (pairs of node and initial
    /// distance); `Ok` exactly when `run_batch` accepts it.
    pub fn check_run_batch(&self, sources: &[(u32, u32)], targets: &[(u32, u32)]) -> (r: Result<(), InputError>)
        requires
            self.wf(),
        ensures
            r == batch_run_result(self.state().node_count, sources@, targets@),
    {
        let n = self.metric.cch().node_count();
        if !pair_nodes_all_below(sources, n) {
            Err(InputError::SourceOutOfRange)
        } else if !pair_nodes_all_below(targets, n) {
            Err(InputError::TargetOutOfRange)
        } else if sources.len() == 0 || targets.len() == 0 {
            Err(InputError::QueryNotReady)
        } else {
            Ok(())
        }
    }

    /// On an empty query: adds every source, then every target, and starts the
    /// search. Returns the engine calls, which the engine accepts one by one and
    /// after which its search sees exactly these sources and targets.
    pub fn run_batch(&mut self, sources: &[(u32, u32)], targets: &[(u32, u32)]) -> (plan: Vec<QueryCall>)
        requires
            old(self).wf(),
            old(self).state().sources.len() == 0,
            old(self).state().targets.len() == 0,
            !old(self).is_running_spec(),
            batch_run_result(old(self).state().node_count, sources@, targets@) is Ok,
        ensures
            final(self).wf(),
            ops(plan@) == batch_run_plan(sources@, targets@),
            plan_allowed(old(self).state(), ops(plan@)),
            final(self).state() == after_plan(old(self).state(), ops(plan@)),
            final(self).state() == searched_between(old(self).state(), sources@, targets@),
            final(self).is_running_spec(),
            final(self).metric() == old(self).metric(),
    {
        let ghost st = self.engine@;
        proof {
            assert(st.sources =~= Seq::<(u32, u32)>::empty());
            assert(st.targets =~= Seq::<(u32, u32)>::empty());
            assert(st.pinned_targets =~= Seq::<u32>::empty());
            assert(st.pinned_sources =~= Seq::<u32>::empty());
            assert(st == fresh(st.node_count));
        }
        let mut plan = add_calls(sources, true);
        let mut rest = add_calls(targets, false);
        let ghost a = ops(plan@);
        let ghost b = ops(rest@);
        proof {
            lemma_add_batch(st, sources@, a, true);
            assert(st.sources + sources@ =~= sources@);
            lemma_add_batch(with_sources(st, sources@), targets@, b, false);
            assert(with_sources(st, sources@).targets + targets@ =~= targets@);
            lemma_plan_concat(st, a, b);
        }
        plan.append(&mut rest);
        plan.push(QueryCall::Run);
        proof {
            assert(ops(plan@) =~= (a + b).push(QueryOp::Run));
            lemma_plan_push(st, a + b, QueryOp::Run);
            assert(ops(plan@) =~= batch_run_plan(sources@, targets@));
            assert(after_plan(st, ops(plan@)) =~~= searched_between(st, sources@, targets@));
        }
        self.has_source = true;
        self.has_target = true;
        self.running = true;
        self.engine = Ghost(searched_between(st, sources@, targets@));
        plan
    }

    /// Releases the result of the last search: the query forgets its sources,
    /// targets and labels. Returns the engine call that resets it.
    pub fn release(&mut self) -> (c: QueryCall)
        requires
            old(self).wf(),
        ensures
            final(self).wf(),
            c@ == QueryOp::Reset,
            call_allowed(old(self).state(), c@),
            final(self).state() == after(old(self).state(), c@),
            final(self).state() == fresh(old(self).state().node_count),
            final(self).state() == fresh(old(self).metric().graph().nodes()),
            final(self).metric() == old(self).metric(),
    {
        self.has_source = false;
        self.has_target = false;
        self.running = false;
        self.engine = Ghost(after(self.engine@, QueryOp::Reset));
        QueryCall::Reset
    }
}

/// Releasing a result leaves any well-formed query, whatever it was asked
/// before, in the state of a query freshly built on its metric (the state that
/// `CCHQuery::new` gives): the engine accepts the reset, and afterwards no source,
/// no target and no search remain, so every later call is accepted and
/// answered as on the fresh query.
pub proof fn law_release_matches_fresh<'a>(q: CCHQuery<'a>)
    requires
        q.wf(),
    ensures
        call_allowed(q.state(), QueryOp::Reset),
        after(q.state(), QueryOp::Reset) == fresh(q.metric().graph().nodes()),
{
}

} // verus!
