//! Metrics (weight bindings) and their partial updates.
use vstd::prelude::*;
use crate::error::InputError;
use crate::hierarchy::CCH;

verus! {

/// The weights after `updates` were written one after the other, each pair
/// `(arc, weight)` overwriting the weight of its arc.
pub open spec fn apply_updates(weights: Seq<u32>, updates: Seq<(u32, u32)>) -> Seq<u32>
    decreases updates.len(),
{
    if updates.len() == 0 {
        weights
    } else {
        apply_updates(weights, updates.drop_last()).update(
            updates.last().0 as int,
            updates.last().1,
        )
    }
}

/// The weight that the last update of `arc` in `updates` writes, if any does.
pub open spec fn last_update(updates: Seq<(u32, u32)>, arc: int) -> Option<u32>
    decreases updates.len(),
{
    if updates.len() == 0 {
        None
    } else if updates.last().0 == arc {
        Some(updates.last().1)
    } else {
        last_update(updates.drop_last(), arc)
    }
}

/// Every update names an arc of a weight vector of length `len`.
pub open spec fn updates_in_range(updates: Seq<(u32, u32)>, len: int) -> bool {
    forall|i: int| 0 <= i < updates.len() ==> (#[trigger] updates[i]).0 < len
}

/// The outcome of the check on a batch of updates.
pub open spec fn updates_result(updates: Seq<(u32, u32)>, len: int) -> Result<(), InputError> {
    if updates_in_range(updates, len) {
        Ok(())
    } else {
        Err(InputError::ArcIdOutOfRange)
    }
}

/// The arcs of a batch of updates, in the order of the batch.
pub open spec fn updated_arcs(updates: Seq<(u32, u32)>) -> Seq<u32> {
    updates.map_values(|p: (u32, u32)| p.0)
}

/// Applying a batch keeps the length and gives each arc the weight of its last
/// update, or its old weight when no update names it.
pub proof fn lemma_apply_updates_pointwise(weights: Seq<u32>, updates: Seq<(u32, u32)>)
    requires
        updates_in_range(updates, weights.len() as int),
    ensures
        apply_updates(weights, updates).len() == weights.len(),
        forall|j: int|
            0 <= j < weights.len() ==> #[trigger] apply_updates(weights, updates)[j] == match last_update(
                updates,
                j,
            ) {
                Some(w) => w,
                None => weights[j],
            },
    decreases updates.len(),
{
    if updates.len() > 0 {
        let rest = updates.drop_last();
        assert forall|i: int| 0 <= i < rest.len() implies (#[trigger] rest[i]).0 < weights.len() by {
            assert(rest[i] == updates[i]);
        }
        lemma_apply_updates_pointwise(weights, rest);
        assert(updates[updates.len() - 1].0 < weights.len());
    }
}

/// A metric: one weight per arc of a hierarchy.
pub struct CCHMetric<'a> {
    weights: Vec<u32>,
    cch: &'a CCH,
}

impl<'a> View for CCHMetric<'a> {
    type V = Seq<u32>;

    /// The weights, indexed by arc.
    closed spec fn view(&self) -> Seq<u32> {
        self.weights@
    }
}

impl<'a> CCHMetric<'a> {
    /// Well-formed: one weight per arc of the hierarchy.
    pub closed spec fn wf(&self) -> bool {
        self.weights@.len() == self.cch.arcs()
    }

    /// The hierarchy that the weights belong to.
    pub closed spec fn graph(&self) -> CCH {
        *self.cch
    }

    /// Checks a weight vector against a hierarchy; `Ok` exactly when it holds
    /// one weight per arc.
    pub fn check_weights(cch: &CCH, weights: &[u32]) -> (r: Result<(), InputError>)
        ensures
            r is Ok <==> weights@.len() == cch.arcs(),
            r is Err ==> r == Err::<(), InputError>(InputError::WeightCountMismatch),
    {
        if weights.len() == cch.edge_count() {
            Ok(())
        } else {
            Err(InputError::WeightCountMismatch)
        }
    }

    /// Binds `weights` to `cch`.
    pub fn new(cch: &'a CCH, weights: Vec<u32>) -> (m: Self)
        requires
            weights@.len() == cch.arcs(),
        ensures
            m.wf(),
            m@ == weights@,
            m.graph() == *cch,
    {
        CCHMetric { weights, cch }
    }

    /// The weights, one per arc.
    pub fn weights(&self) -> (r: &[u32])
        requires
            self.wf(),
        ensures
            r@ == self@,
            r@.len() == self.graph().arcs(),
    {
        self.weights.as_slice()
    }

    /// The hierarchy of this metric.
    pub fn cch(&self) -> (r: &'a CCH)
        ensures
            *r == self.graph(),
    {
        self.cch
    }

    /// Replaces the weights with `weights`, on the same hierarchy.
    pub fn reset(&mut self, weights: Vec<u32>)
        requires
            old(self).wf(),
            weights@.len() == old(self).graph().arcs(),
        ensures
            final(self).wf(),
            final(self)@ == weights@,
            final(self).graph() == old(self).graph(),
    {
        self.weights = weights;
    }

    /// Writes one weight.
    fn set_weight(&mut self, arc: usize, weight: u32)
        requires
            old(self).wf(),
            arc < old(self)@.len(),
        ensures
            final(self).wf(),
            final(self)@ == old(self)@.update(arc as int, weight),
            final(self).graph() == old(self).graph(),
    {
        self.weights.set(arc, weight);
    }
}

/// A reusable helper for partial updates of the metrics of one hierarchy.
pub struct CCHMetricPartialUpdater<'a> {
    cch: &'a CCH,
}

impl<'a> CCHMetricPartialUpdater<'a> {
    /// The hierarchy whose metrics this helper updates.
    pub closed spec fn graph(&self) -> CCH {
        *self.cch
    }

    /// A helper for the metrics of `cch`.
    pub fn new(cch: &'a CCH) -> (u: Self)
        ensures
            u.graph() == *cch,
    {
        CCHMetricPartialUpdater { cch }
    }

    /// Checks a batch of updates against a metric; `Ok` exactly when every
    /// update names one of its arcs.
    pub fn check_updates(&self, metric: &CCHMetric<'a>, updates: &[(u32, u32)]) -> (r: Result<(), InputError>)
        requires
            metric.wf(),
        ensures
            r == updates_result(updates@, metric@.len() as int),
    {
        let len = metric.weights().len();
        let n = updates.len();
        let mut i: usize = 0;
        while i < n
            invariant
                n == updates@.len(),
                len == metric@.len(),
                i <= n,
                forall|j: int| 0 <= j < i ==> (#[trigger] updates@[j]).0 < len,
            decreases n - i,
        {
            if (updates[i].0 as usize) >= len {
                return Err(InputError::ArcIdOutOfRange);
            }
            i = i + 1;
        }
        Ok(())
    }

    /// Writes the batch `(arc, weight)` into the metric, in order, and returns
    /// the arcs that the engine must then re-customize, in the same order.
    pub fn apply(&mut self, metric: &mut CCHMetric<'a>, updates: &[(u32, u32)]) -> (arcs: Vec<u32>)
        requires
            old(metric).wf(),
            old(metric).graph() == old(self).graph(),
            updates_in_range(updates@, old(metric)@.len() as int),
        ensures
            final(metric).wf(),
            final(metric)@ == apply_updates(old(metric)@, updates@),
            final(metric).graph() == old(metric).graph(),
            *final(self) == *old(self),
            arcs@ == updated_arcs(updates@),
            arcs@.len() == updates@.len(),
            forall|i: int| 0 <= i < updates@.len() ==> #[trigger] arcs@[i] == updates@[i].0,
    {
        let n = updates.len();
        let mut arcs: Vec<u32> = Vec::new();
        let mut i: usize = 0;
        while i < n
            invariant
                n == updates@.len(),
                i <= n,
                updates_in_range(updates@, old(metric)@.len() as int),
                metric@ == apply_updates(old(metric)@, updates@.take(i as int)),
                metric@.len() == old(metric)@.len(),
                metric.wf(),
                metric.graph() == old(metric).graph(),
                arcs@ == updated_arcs(updates@.take(i as int)),
            decreases n - i,
        {
            let (arc, weight) = updates[i];
            assert(updates@[i as int].0 < old(metric)@.len());
            metric.set_weight(arc as usize, weight);
            arcs.push(arc);
            assert(updates@.take(i + 1).drop_last() =~= updates@.take(i as int));
            assert(updated_arcs(updates@.take(i + 1)) =~= updated_arcs(updates@.take(i as int)).push(arc));
            i = i + 1;
        }
        assert(updates@.take(n as int) =~= updates@);
        arcs
    }
}

/// Counts the queries that currently read a metric, so that the metric's
/// weights are changed only while nobody reads them.
pub struct MetricReaders {
    count: usize,
}

impl MetricReaders {
    /// Number of queries that read the metric.
    pub closed spec fn readers(&self) -> nat {
        self.count as nat
    }

    /// No query reads the metric.
    pub fn new() -> (r: Self)
        ensures
            r.readers() == 0,
    {
        MetricReaders { count: 0 }
    }

    /// Whether another query can be counted.
    pub fn can_attach(&self) -> (r: bool)
        ensures
            r == (self.readers() < usize::MAX),
    {
        self.count < usize::MAX
    }

    /// One more query reads the metric.
    pub fn attach(&mut self)
        requires
            old(self).readers() < usize::MAX,
        ensures
            final(self).readers() == old(self).readers() + 1,
    {
        self.count = self.count + 1;
    }

    /// One query stopped reading the metric.
    pub fn detach(&mut self)
        requires
            old(self).readers() > 0,
        ensures
            final(self).readers() == old(self).readers() - 1,
    {
        self.count = self.count - 1;
    }

    /// Whether the weights may change: no query reads them.
    pub fn is_exclusive(&self) -> (r: bool)
        ensures
            r == (self.readers() == 0),
    {
        self.count == 0
    }

    /// Number of queries that read the metric.
    pub fn count(&self) -> (r: usize)
        ensures
            r == self.readers(),
    {
        self.count
    }
}

} // verus!
