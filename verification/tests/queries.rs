use routingkit_cch::{
    distance_from_raw, distances_from_raw, CCHManyToOne, CCHMetric, CCHOneToMany, CCHQuery,
    InputError, QueryCall, CCH, INF_WEIGHT,
};

fn hierarchy() -> CCH {
    // 5 nodes, 4 arcs.
    CCH::new(&[4, 2, 0, 1, 3], &[0, 1, 2, 3], &[1, 2, 3, 4])
}

#[test]
fn infinity_means_unreachable() {
    assert_eq!(INF_WEIGHT, 2_147_483_647);
    assert_eq!(distance_from_raw(INF_WEIGHT), None);
    assert_eq!(distance_from_raw(0), Some(0));
    assert_eq!(distance_from_raw(42), Some(42));
    assert_eq!(distance_from_raw(INF_WEIGHT - 1), Some(INF_WEIGHT - 1));
    assert_eq!(distance_from_raw(u32::MAX), Some(u32::MAX));
}

#[test]
fn distances_keep_the_order_of_the_answers() {
    assert_eq!(
        distances_from_raw(&[3, INF_WEIGHT, 0, 7]),
        vec![Some(3), None, Some(0), Some(7)]
    );
    assert_eq!(distances_from_raw(&[]), Vec::<Option<u32>>::new());
}

#[test]
fn point_to_point_query_lifecycle() {
    let cch = hierarchy();
    let metric = CCHMetric::new(&cch, vec![1, 2, 3, 4]);
    let mut q = CCHQuery::new(&metric);
    assert!(q.is_empty());
    assert!(!q.is_ready());
    assert_eq!(q.check_ready(), Err(InputError::QueryNotReady));
    assert_eq!(q.add_source(0, 0), QueryCall::AddSource(0, 0));
    assert!(!q.is_ready());
    assert_eq!(q.add_target(4, 3), QueryCall::AddTarget(4, 3));
    assert!(q.is_ready());
    assert_eq!(q.check_ready(), Ok(()));
    assert_eq!(q.run(), QueryCall::Run);
    assert!(q.is_running());
    assert_eq!(q.release(), QueryCall::Reset);
    assert!(q.is_empty());
    assert!(!q.is_running());
    assert!(!q.is_ready());
}

#[test]
fn query_nodes_must_exist() {
    let cch = hierarchy();
    let metric = CCHMetric::new(&cch, vec![1, 2, 3, 4]);
    let q = CCHQuery::new(&metric);
    assert_eq!(q.check_source(4), Ok(()));
    assert_eq!(q.check_source(5), Err(InputError::SourceOutOfRange));
    assert_eq!(q.check_target(0), Ok(()));
    assert_eq!(q.check_target(9), Err(InputError::TargetOutOfRange));
}

#[test]
fn one_to_many_pins_and_answers_batches() {
    let cch = hierarchy();
    let metric = CCHMetric::new(&cch, vec![1, 2, 3, 4]);
    let (otm, pin) = CCHOneToMany::new(&metric, &[4, 2, 4]);
    assert_eq!(pin, QueryCall::PinTargets(vec![4, 2, 4]));
    assert_eq!(otm.target_count(), 3);
    let plan = otm.distances_from_multi(&[(0, 5), (1, 0)]);
    assert_eq!(
        plan,
        vec![
            QueryCall::AddSource(0, 5),
            QueryCall::AddSource(1, 0),
            QueryCall::RunToPinnedTargets,
            QueryCall::ReadDistancesToTargets,
            QueryCall::ResetSource,
        ]
    );
    assert_eq!(otm.distances_from(3), otm.distances_from_multi(&[(3, 0)]));
}

#[test]
fn one_to_many_refuses_bad_sets() {
    let cch = hierarchy();
    let metric = CCHMetric::new(&cch, vec![1, 2, 3, 4]);
    assert_eq!(CCHOneToMany::check_targets(&metric, &[]), Err(InputError::NoTargets));
    assert_eq!(CCHOneToMany::check_targets(&metric, &[0, 5]), Err(InputError::TargetOutOfRange));
    assert_eq!(CCHOneToMany::check_targets(&metric, &[0, 4]), Ok(()));
    let (otm, _) = CCHOneToMany::new(&metric, &[1]);
    assert_eq!(otm.check_sources(&[]), Err(InputError::NoSources));
    assert_eq!(otm.check_sources(&[(2, 0), (7, 1)]), Err(InputError::SourceOutOfRange));
    assert_eq!(otm.check_sources(&[(2, 0)]), Ok(()));
}

#[test]
fn repin_matches_a_fresh_one_to_many() {
    let cch = hierarchy();
    let metric = CCHMetric::new(&cch, vec![1, 2, 3, 4]);
    let (mut reused, _) = CCHOneToMany::new(&metric, &[0, 1, 2, 3]);
    let plan = reused.repin_targets(&[4, 3]);
    assert_eq!(plan, vec![QueryCall::Reset, QueryCall::PinTargets(vec![4, 3])]);
    assert_eq!(reused.target_count(), 2);
    let (fresh, _) = CCHOneToMany::new(&metric, &[4, 3]);
    assert_eq!(reused.target_count(), fresh.target_count());
    assert_eq!(reused.distances_from(1), fresh.distances_from(1));
}

#[test]
fn many_to_one_pins_and_answers_batches() {
    let cch = hierarchy();
    let metric = CCHMetric::new(&cch, vec![1, 2, 3, 4]);
    let (mut mto, pin) = CCHManyToOne::new(&metric, &[0, 1]);
    assert_eq!(pin, QueryCall::PinSources(vec![0, 1]));
    assert_eq!(mto.source_count(), 2);
    assert_eq!(
        mto.distances_to_multi(&[(4, 2)]),
        vec![
            QueryCall::AddTarget(4, 2),
            QueryCall::RunToPinnedSources,
            QueryCall::ReadDistancesToSources,
            QueryCall::ResetTarget,
        ]
    );
    assert_eq!(mto.distances_to(4), mto.distances_to_multi(&[(4, 0)]));
    assert_eq!(CCHManyToOne::check_sources(&metric, &[]), Err(InputError::NoSources));
    assert_eq!(CCHManyToOne::check_sources(&metric, &[5]), Err(InputError::SourceOutOfRange));
    assert_eq!(mto.check_targets(&[]), Err(InputError::NoTargets));
    assert_eq!(mto.check_targets(&[(6, 0)]), Err(InputError::TargetOutOfRange));
    let plan = mto.repin_sources(&[2]);
    assert_eq!(plan, vec![QueryCall::Reset, QueryCall::PinSources(vec![2])]);
    assert_eq!(mto.source_count(), 1);
}

#[test]
fn batch_run_adds_sources_then_targets() {
    let cch = hierarchy();
    let metric = CCHMetric::new(&cch, vec![1, 2, 3, 4]);
    let mut q = CCHQuery::new(&metric);
    assert_eq!(q.check_run_batch(&[(0, 1)], &[(3, 0), (4, 2)]), Ok(()));
    let plan = q.run_batch(&[(0, 1)], &[(3, 0), (4, 2)]);
    assert_eq!(
        plan,
        vec![
            QueryCall::AddSource(0, 1),
            QueryCall::AddTarget(3, 0),
            QueryCall::AddTarget(4, 2),
            QueryCall::Run,
        ]
    );
    assert!(q.is_running());
    assert_eq!(q.release(), QueryCall::Reset);
    assert!(q.is_empty());
}

#[test]
fn batch_run_checks_in_the_order_of_its_steps() {
    let cch = hierarchy();
    let metric = CCHMetric::new(&cch, vec![1, 2, 3, 4]);
    let q = CCHQuery::new(&metric);
    assert_eq!(q.check_run_batch(&[(9, 0)], &[(8, 0)]), Err(InputError::SourceOutOfRange));
    assert_eq!(q.check_run_batch(&[(1, 0)], &[(8, 0)]), Err(InputError::TargetOutOfRange));
    assert_eq!(q.check_run_batch(&[], &[(8, 0)]), Err(InputError::TargetOutOfRange));
    assert_eq!(q.check_run_batch(&[], &[(2, 0)]), Err(InputError::QueryNotReady));
    assert_eq!(q.check_run_batch(&[(1, 0)], &[]), Err(InputError::QueryNotReady));
}
