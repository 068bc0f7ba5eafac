use routingkit_cch::{check_inertial_input, check_order_input, is_permutation, InputError, CCH};

#[test]
fn permutation_accepts_every_reordering_of_the_ids() {
    assert!(is_permutation(&[]));
    assert!(is_permutation(&[0]));
    assert!(is_permutation(&[2, 0, 1]));
    assert!(is_permutation(&[3, 1, 0, 2]));
}

#[test]
fn permutation_rejects_repeats_and_large_ids() {
    assert!(!is_permutation(&[0, 0]));
    assert!(!is_permutation(&[1, 2]));
    assert!(!is_permutation(&[0, 1, 3]));
    assert!(!is_permutation(&[2, 1, 2]));
}

#[test]
fn order_input_checks_ids_before_lengths() {
    assert_eq!(check_order_input(3, &[0, 1], &[1, 2]), Ok(()));
    assert_eq!(check_order_input(3, &[], &[]), Ok(()));
    assert_eq!(check_order_input(3, &[0, 3], &[1, 2]), Err(InputError::NodeIdOutOfRange));
    assert_eq!(check_order_input(3, &[0, 1], &[1, 2, 0]), Err(InputError::ArcLengthMismatch));
    // Both faults: the id check comes first.
    assert_eq!(check_order_input(2, &[0, 1], &[5]), Err(InputError::NodeIdOutOfRange));
}

#[test]
fn inertial_input_needs_one_coordinate_per_node() {
    assert_eq!(check_inertial_input(3, &[0], &[2], 3, 3), Ok(()));
    assert_eq!(check_inertial_input(3, &[0], &[2], 2, 3), Err(InputError::CoordinateLengthMismatch));
    assert_eq!(check_inertial_input(3, &[0], &[2], 3, 4), Err(InputError::CoordinateLengthMismatch));
    assert_eq!(check_inertial_input(3, &[0], &[], 2, 2), Err(InputError::ArcLengthMismatch));
    assert_eq!(check_inertial_input(1, &[0], &[2], 1, 1), Err(InputError::NodeIdOutOfRange));
}

#[test]
fn hierarchy_input_checks_in_the_documented_order() {
    assert_eq!(CCH::check_input(&[1, 0, 2], &[0, 1], &[1, 2]), Ok(()));
    assert_eq!(CCH::check_input(&[1, 1, 2], &[0, 1], &[1, 2]), Err(InputError::NotAPermutation));
    assert_eq!(CCH::check_input(&[1, 0, 2], &[0, 1], &[1]), Err(InputError::ArcLengthMismatch));
    assert_eq!(CCH::check_input(&[1, 0, 2], &[0, 3], &[1, 2]), Err(InputError::NodeIdOutOfRange));
    // Not a permutation and lengths differ: the permutation check comes first.
    assert_eq!(CCH::check_input(&[0, 0], &[0], &[]), Err(InputError::NotAPermutation));
}

#[test]
fn hierarchy_counts_nodes_and_arcs() {
    let cch = CCH::new(&[2, 0, 1], &[0, 1, 2, 0], &[1, 2, 0, 2]);
    assert_eq!(cch.node_count(), 3);
    assert_eq!(cch.edge_count(), 4);
    let unchecked = CCH::new_unchecked(&[0, 1], &[], &[]);
    assert_eq!(unchecked.node_count(), 2);
    assert_eq!(unchecked.edge_count(), 0);
}

#[test]
fn every_refusal_has_its_message() {
    assert_eq!(InputError::NodeIdOutOfRange.message(), "tail/head contain node ids outside valid range");
    assert_eq!(InputError::ArcLengthMismatch.message(), "tail and head arrays must have the same length");
    assert_eq!(
        InputError::CoordinateLengthMismatch.message(),
        "latitude/longitude length must equal node count"
    );
    assert_eq!(InputError::NotAPermutation.message(), "order array is not a valid permutation");
    assert_eq!(InputError::WeightCountMismatch.message(), "weights length must equal arc count");
    assert_eq!(InputError::ArcIdOutOfRange.message(), "updated arc id out of range");
    assert_eq!(InputError::NoTargets.message(), "must provide at least one target");
    assert_eq!(InputError::NoSources.message(), "must provide at least one source");
    assert_eq!(InputError::TargetOutOfRange.message(), "target node id out of range");
    assert_eq!(InputError::SourceOutOfRange.message(), "source node id out of range");
    assert_eq!(
        InputError::QueryNotReady.message(),
        "must add at least one source and one target before running the query"
    );
}
