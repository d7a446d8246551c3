use pipelining::{first_running_from, pick_two_distinct, sample_queryable_node, sample_two_nodes};

#[test]
fn pick_two_distinct_exact_values() {
    // i = 3 % 5 = 3; j = 7 % 4 = 3, bumped past i to 4
    assert_eq!(pick_two_distinct(5, 3, 7), (3, 4));
    // i = 0; j = 0, bumped to 1
    assert_eq!(pick_two_distinct(2, 0, 0), (0, 1));
    // j = 0 stays below i = 4
    assert_eq!(pick_two_distinct(5, 4, 8), (4, 0));
}

#[test]
fn sample_two_nodes_are_distinct_and_in_range() {
    for _ in 0..50 {
        let (i, j) = sample_two_nodes(3);
        assert!(i < 3);
        assert!(j < 3);
        assert_ne!(i, j);
    }
}

#[test]
fn first_running_scans_forward_then_wraps() {
    let running = vec![false, true, false];
    assert_eq!(first_running_from(&running, 1), Some(1));
    assert_eq!(first_running_from(&running, 2), Some(1));
    let front_only = vec![true, false];
    assert_eq!(first_running_from(&front_only, 1), Some(0));
    let none = vec![false, false];
    assert_eq!(first_running_from(&none, 0), None);
}

#[test]
fn sample_queryable_node_returns_a_running_node() {
    let running = vec![false, true, false, true];
    for _ in 0..50 {
        let k = sample_queryable_node(&running);
        assert!(running[k]);
    }
}
