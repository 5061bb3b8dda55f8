use consistency_harness::controller::check_is_due;
use consistency_harness::recheck::{
    all_agree_on, disagreements, find_payload, index_nodes, index_payloads, same_payload,
    PayloadReading, Recheck,
};

fn reading(id: u64, payload: &str) -> PayloadReading {
    PayloadReading { id, payload: payload.as_bytes().to_vec() }
}

fn node(points: &[(u64, &str)]) -> Vec<PayloadReading> {
    points.iter().map(|(id, payload)| reading(*id, payload)).collect()
}

#[test]
fn last_reading_of_an_identifier_gives_its_payload() {
    let readings = node(&[(1, "a"), (2, "b"), (1, "c")]);
    let places = index_payloads(&readings);
    assert_eq!(places.len(), 2);
    assert_eq!(find_payload(&places, 1), Some(2));
    assert_eq!(find_payload(&places, 2), Some(1));
    assert_eq!(find_payload(&places, 3), None);
    let indexes = index_nodes(&vec![readings, node(&[]), node(&[(7, "x")])]);
    assert_eq!(indexes.len(), 3);
    assert!(indexes[1].is_empty());
    assert_eq!(find_payload(&indexes[2], 7), Some(0));
}

#[test]
fn nodes_agree_on_equal_payloads_only() {
    let a = node(&[(1, "x"), (2, "y")]);
    let b = node(&[(2, "y"), (1, "z")]);
    assert!(same_payload(&a, &b, 2));
    assert!(!same_payload(&a, &b, 1));
    assert!(same_payload(&a, &b, 9));
    let again = node(&[(1, "z"), (1, "x")]);
    assert!(same_payload(&a, &again, 1));
    assert!(!same_payload(&a, &node(&[]), 1));
}

#[test]
fn one_divergent_node_is_a_disagreement() {
    let nodes = vec![
        node(&[(1, "x"), (2, "y"), (3, "z")]),
        node(&[(1, "x"), (2, "y"), (3, "z")]),
        node(&[(1, "x"), (2, "other"), (3, "z")]),
    ];
    assert!(all_agree_on(&nodes, 1));
    assert!(!all_agree_on(&nodes, 2));
    assert_eq!(disagreements(&vec![3, 2, 1], &nodes), vec![false, true, false]);
    assert!(all_agree_on(&vec![], 1));
    assert!(all_agree_on(&vec![node(&[(1, "x")])], 1));
}

#[test]
fn first_batch_is_the_end_of_the_list() {
    let recheck = Recheck::begin((0..10).collect(), 4);
    assert_eq!(recheck.remaining, vec![0, 1, 2, 3, 4, 5]);
    assert_eq!(recheck.current, vec![6, 7, 8, 9]);
    assert_eq!(recheck.retries, 0);
    let recheck = Recheck::begin(vec![1, 2], 4);
    assert!(recheck.remaining.is_empty());
    assert_eq!(recheck.current, vec![1, 2]);
    assert!(Recheck::begin(vec![], 4).is_done());
}

fn cluster(ids: &[u64], disputed: &[u64]) -> Vec<Vec<PayloadReading>> {
    let first = ids.iter().map(|id| reading(*id, "same")).collect();
    let second = ids
        .iter()
        .map(|id| reading(*id, if disputed.contains(id) { "other" } else { "same" }))
        .collect();
    vec![first, second]
}

#[test]
fn disagreements_are_asked_for_again_with_fresh_identifiers() {
    let mut recheck = Recheck::begin((0..10).collect(), 4);
    recheck.settle(&cluster(&[6, 7, 8, 9], &[7, 9]));
    assert_eq!(recheck.current, vec![7, 9, 4, 5]);
    assert_eq!(recheck.remaining, vec![0, 1, 2, 3]);
    assert_eq!(recheck.retries, 1);
    recheck.settle(&cluster(&[7, 9, 4, 5], &[]));
    assert_eq!(recheck.current, vec![0, 1, 2, 3]);
    assert!(recheck.remaining.is_empty());
    assert_eq!(recheck.retries, 1);
    recheck.settle(&cluster(&[0, 1, 2, 3], &[0, 1, 2, 3]));
    assert_eq!(recheck.current, vec![0, 1, 2, 3]);
    assert_eq!(recheck.retries, 2);
    assert!(!recheck.is_done());
    recheck.settle(&cluster(&[0, 1, 2, 3], &[]));
    assert!(recheck.is_done());
}

#[test]
fn every_identifier_is_compared_once_where_the_nodes_agree() {
    let mut recheck = Recheck::begin((0..23).collect(), 5);
    let mut seen: Vec<u64> = Vec::new();
    let mut rounds = 0;
    while !recheck.is_done() {
        seen.extend(recheck.current.iter());
        let nodes = cluster(&recheck.current, &[]);
        recheck.settle(&nodes);
        rounds += 1;
    }
    seen.sort_unstable();
    assert_eq!(seen, (0..23).collect::<Vec<u64>>());
    assert_eq!(rounds, 5);
    assert_eq!(recheck.retries, 0);
}

#[test]
fn batch_of_nothing_never_asks_for_anything() {
    let mut recheck = Recheck::begin(vec![1, 2, 3], 0);
    assert!(recheck.current.is_empty());
    assert_eq!(recheck.remaining, vec![1, 2, 3]);
    recheck.settle(&cluster(&[], &[]));
    assert!(recheck.current.is_empty());
    assert!(!recheck.is_done());
}

#[test]
fn counters_are_checked_early_and_then_every_tenth_round() {
    let due: Vec<u64> = (0..31).filter(|round| check_is_due(*round, false)).collect();
    assert_eq!(due, vec![0, 1, 2, 3, 4, 10, 20, 30]);
    assert!(check_is_due(7, true));
}
