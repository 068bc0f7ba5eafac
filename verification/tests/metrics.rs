use routingkit_cch::{CCHMetric, CCHMetricPartialUpdater, InputError, MetricReaders, CCH};

fn small_hierarchy() -> CCH {
    // 4 nodes, 5 arcs.
    CCH::new(&[3, 1, 0, 2], &[0, 1, 2, 3, 0], &[1, 2, 3, 0, 2])
}

#[test]
fn metric_keeps_its_weights() {
    let cch = small_hierarchy();
    let metric = CCHMetric::new(&cch, vec![4, 8, 15, 16, 23]);
    assert_eq!(metric.weights(), &[4, 8, 15, 16, 23][..]);
    assert_eq!(metric.cch().edge_count(), 5);
}

#[test]
fn metric_weights_must_match_the_arc_count() {
    let cch = small_hierarchy();
    assert_eq!(CCHMetric::check_weights(&cch, &[1, 2, 3, 4, 5]), Ok(()));
    assert_eq!(CCHMetric::check_weights(&cch, &[1, 2, 3]), Err(InputError::WeightCountMismatch));
    assert_eq!(CCHMetric::check_weights(&cch, &[]), Err(InputError::WeightCountMismatch));
}

#[test]
fn metric_reset_reads_back_what_was_written() {
    let cch = small_hierarchy();
    let mut metric = CCHMetric::new(&cch, vec![1, 1, 1, 1, 1]);
    let new_weights = vec![9, 7, 5, 3, 1];
    metric.reset(new_weights.clone());
    assert_eq!(metric.weights(), &new_weights[..]);
    let fresh = CCHMetric::new(&cch, new_weights);
    assert_eq!(metric.weights(), fresh.weights());
}

#[test]
fn partial_update_overwrites_named_arcs_only() {
    let cch = small_hierarchy();
    let mut metric = CCHMetric::new(&cch, vec![10, 20, 30, 40, 50]);
    let mut updater = CCHMetricPartialUpdater::new(&cch);
    let arcs = updater.apply(&mut metric, &[(3, 7), (0, 1)]);
    assert_eq!(metric.weights(), &[1, 20, 30, 7, 50][..]);
    assert_eq!(arcs, vec![3, 0]);
}

#[test]
fn partial_update_last_write_wins() {
    let cch = small_hierarchy();
    let mut metric = CCHMetric::new(&cch, vec![10, 20, 30, 40, 50]);
    let mut updater = CCHMetricPartialUpdater::new(&cch);
    let arcs = updater.apply(&mut metric, &[(2, 5), (4, 6), (2, 8)]);
    assert_eq!(metric.weights(), &[10, 20, 8, 40, 6][..]);
    assert_eq!(arcs, vec![2, 4, 2]);
    let none = updater.apply(&mut metric, &[]);
    assert!(none.is_empty());
    assert_eq!(metric.weights(), &[10, 20, 8, 40, 6][..]);
}

#[test]
fn partial_update_refuses_unknown_arcs() {
    let cch = small_hierarchy();
    let metric = CCHMetric::new(&cch, vec![10, 20, 30, 40, 50]);
    let updater = CCHMetricPartialUpdater::new(&cch);
    assert_eq!(updater.check_updates(&metric, &[(4, 1), (0, 2)]), Ok(()));
    assert_eq!(updater.check_updates(&metric, &[(0, 1), (5, 2)]), Err(InputError::ArcIdOutOfRange));
}

#[test]
fn readers_guard_the_weights() {
    let mut readers = MetricReaders::new();
    assert!(readers.is_exclusive());
    assert!(readers.can_attach());
    readers.attach();
    readers.attach();
    assert_eq!(readers.count(), 2);
    assert!(!readers.is_exclusive());
    readers.detach();
    readers.detach();
    assert!(readers.is_exclusive());
}
