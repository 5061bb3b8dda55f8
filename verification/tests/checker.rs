use consistency_harness::checker::{cross_node_cycle, CheckLoop, CheckStep, CrossNodeFault};
use consistency_harness::cross_node::{
    compare_adjacent, compare_pair, first_short_pair, order_nodes, pair_descriptions, same_bytes,
    Observed, PairTally, StructuralFault,
};
use consistency_harness::report::{assemble, render_reports, Finding, InconsistencyReport};

fn point(id: u64, payload: &str, vector: &[u8]) -> Observed {
    Observed { id, payload: payload.as_bytes().to_vec(), vector: vector.to_vec() }
}

fn node(ids: &[u64]) -> Vec<Observed> {
    ids.iter().map(|id| point(*id, "same", &[1, 2, 3])).collect()
}

#[test]
fn equal_nodes_have_clean_tallies() {
    let nodes = vec![node(&[1, 2, 3]), node(&[1, 2, 3]), node(&[1, 2, 3])];
    let clean = PairTally { compared: 3, vector_mismatches: 0, payload_mismatches: 0 };
    assert_eq!(compare_adjacent(&nodes), Ok(vec![clean, clean]));
}

#[test]
fn divergent_last_node_shows_in_its_pair_only() {
    let mut last = node(&[1, 2, 3]);
    last[1] = point(2, "other", &[1, 2, 3]);
    let nodes = vec![node(&[1, 2, 3]), node(&[1, 2, 3]), last];
    assert_eq!(
        compare_adjacent(&nodes),
        Ok(vec![
            PairTally { compared: 3, vector_mismatches: 0, payload_mismatches: 0 },
            PairTally { compared: 3, vector_mismatches: 0, payload_mismatches: 1 },
        ])
    );
}

#[test]
fn divergent_middle_node_shows_in_both_of_its_pairs() {
    let mut middle = node(&[1, 2, 3]);
    middle[0] = point(1, "same", &[9]);
    middle[2] = point(3, "other", &[9, 9]);
    let nodes = vec![node(&[1, 2, 3]), middle, node(&[1, 2, 3])];
    let tally = PairTally { compared: 3, vector_mismatches: 2, payload_mismatches: 1 };
    assert_eq!(compare_adjacent(&nodes), Ok(vec![tally, tally]));
}

#[test]
fn different_identifier_at_one_place_is_a_structural_fault() {
    let nodes = vec![node(&[1, 2, 3]), node(&[1, 2, 3]), node(&[1, 4, 5])];
    assert_eq!(
        compare_adjacent(&nodes),
        Err(StructuralFault { pair: 1, position: 1, left_id: 2, right_id: 4 })
    );
    assert_eq!(compare_pair(&node(&[7, 8]), &node(&[7, 9])), Err((1, 8, 9)));
}

#[test]
fn first_structural_fault_wins() {
    let nodes = vec![node(&[1, 2]), node(&[1, 3]), node(&[9, 9])];
    assert_eq!(
        compare_adjacent(&nodes),
        Err(StructuralFault { pair: 0, position: 1, left_id: 2, right_id: 3 })
    );
}

#[test]
fn nodes_are_compared_as_far_as_both_go() {
    assert_eq!(
        compare_pair(&node(&[1, 2, 3]), &node(&[1, 2])),
        Ok(PairTally { compared: 2, vector_mismatches: 0, payload_mismatches: 0 })
    );
    assert_eq!(
        compare_pair(&node(&[]), &node(&[1, 2])),
        Ok(PairTally { compared: 0, vector_mismatches: 0, payload_mismatches: 0 })
    );
}

#[test]
fn fewer_than_two_nodes_have_no_pair() {
    assert_eq!(compare_adjacent(&vec![]), Ok(vec![]));
    assert_eq!(compare_adjacent(&vec![node(&[1])]), Ok(vec![]));
}

#[test]
fn bytes_are_compared_in_full() {
    assert!(same_bytes(&vec![], &vec![]));
    assert!(same_bytes(&vec![1, 2], &vec![1, 2]));
    assert!(!same_bytes(&vec![1, 2], &vec![1, 3]));
    assert!(!same_bytes(&vec![1, 2], &vec![1, 2, 0]));
}

#[test]
fn points_are_ordered_by_identifier_before_the_comparison() {
    let shuffled = vec![point(3, "c", &[3]), point(1, "a", &[1]), point(2, "b", &[2])];
    let sorted = vec![point(1, "a", &[1]), point(2, "b", &[2]), point(3, "c", &[3])];
    let ordered = order_nodes(vec![shuffled, sorted]);
    assert_eq!(ordered.len(), 2);
    let ids: Vec<u64> = ordered[0].iter().map(|p| p.id).collect();
    assert_eq!(ids, vec![1, 2, 3]);
    assert_eq!(ordered[0][0].payload, b"a".to_vec());
    assert_eq!(ordered[0][2].vector, vec![3]);
    assert_eq!(
        compare_adjacent(&ordered),
        Ok(vec![PairTally { compared: 3, vector_mismatches: 0, payload_mismatches: 0 }])
    );
}

#[test]
fn clean_first_cycle_never_touches_the_lock() {
    let mut state = CheckLoop::begin(25, 100);
    assert!(state.may_check());
    assert_eq!(state.record(true), CheckStep::Pass { release_lock: false });
    assert!(!state.may_check());
}

#[test]
fn lock_is_taken_at_the_first_failure_and_released_on_pass() {
    let mut state = CheckLoop::begin(25, 100);
    assert_eq!(state.record(false), CheckStep::Retry { acquire_lock: true, delay_ms: 100 });
    assert!(state.holds_lock);
    assert_eq!(state.attempts_left, 24);
    assert_eq!(state.record(false), CheckStep::Retry { acquire_lock: false, delay_ms: 100 });
    assert_eq!(state.record(true), CheckStep::Pass { release_lock: true });
    assert!(!state.holds_lock);
}

#[test]
fn inconsistency_is_confirmed_after_the_last_attempt() {
    let mut state = CheckLoop::begin(3, 100);
    let mut steps = Vec::new();
    while state.may_check() {
        steps.push(state.record(false));
    }
    assert_eq!(
        steps,
        vec![
            CheckStep::Retry { acquire_lock: true, delay_ms: 100 },
            CheckStep::Retry { acquire_lock: false, delay_ms: 100 },
            CheckStep::Fail { acquire_lock: false },
        ]
    );
    assert!(!state.holds_lock);
}

#[test]
fn single_attempt_fails_at_once_and_still_takes_the_lock() {
    let mut state = CheckLoop::begin(1, 100);
    assert_eq!(state.record(false), CheckStep::Fail { acquire_lock: true });
    assert!(!state.may_check());
}

#[test]
fn loop_without_attempts_runs_no_cycle() {
    assert!(!CheckLoop::begin(0, 100).may_check());
}

fn findings(items: &[(&str, &str, Option<&str>)]) -> Vec<Finding> {
    items
        .iter()
        .map(|(node, timestamp, description)| Finding {
            node: String::from(*node),
            timestamp: String::from(*timestamp),
            description: description.map(String::from),
        })
        .collect()
}

#[test]
fn reports_name_the_failing_nodes_in_order() {
    let reports = assemble(&findings(&[
        ("http://127.0.0.1:6334", "t0", None),
        ("http://127.0.0.2:6334", "t1", Some("missing 625..650")),
        ("http://127.0.0.3:6334", "t2", Some("x")),
    ]));
    assert_eq!(reports.len(), 2);
    assert_eq!(reports[0].node, "http://127.0.0.2:6334");
    assert_eq!(reports[0].timestamp, "t1");
    assert_eq!(reports[0].description, "missing 625..650");
    assert_eq!(reports[1].node, "http://127.0.0.3:6334");
    assert_eq!(
        render_reports(&reports),
        "- t1 http://127.0.0.2:6334: missing 625..650\n- t2 http://127.0.0.3:6334: x"
    );
}

#[test]
fn no_description_no_report() {
    let reports = assemble(&findings(&[("a", "t", None), ("b", "u", None)]));
    assert!(assemble(&vec![]).is_empty());
    assert!(reports.is_empty());
    assert_eq!(render_reports(&reports), "");
}

#[test]
fn report_line_has_time_node_and_description() {
    let report = InconsistencyReport {
        node: String::from("http://127.0.0.1:6334"),
        timestamp: String::from("2024-05-01T10:00:00.000001"),
        description: String::from("expect 0..200, got zero points (len: 0 vs 200)"),
    };
    assert_eq!(
        report.line(),
        "- 2024-05-01T10:00:00.000001 http://127.0.0.1:6334: expect 0..200, got zero points (len: 0 vs 200)"
    );
}

#[test]
fn pairs_with_a_mismatch_are_described_and_no_others() {
    let mut last = node(&[1, 2, 3]);
    last[1] = point(2, "other", &[1, 2, 3]);
    last[2] = point(3, "other", &[0]);
    let nodes = vec![node(&[1, 2, 3]), node(&[1, 2, 3]), last];
    let tallies = compare_adjacent(&nodes).unwrap();
    assert_eq!(
        pair_descriptions(&tallies),
        vec![
            None,
            Some(String::from("inconsistent vectors: 1 / 3, inconsistent payloads: 2 / 3")),
        ]
    );
    let found: Vec<Finding> = pair_descriptions(&tallies)
        .into_iter()
        .enumerate()
        .map(|(pair, description)| Finding {
            node: format!("node {} vs {}", pair, pair + 1),
            timestamp: String::from("t"),
            description,
        })
        .collect();
    let reports = assemble(&found);
    assert_eq!(
        render_reports(&reports),
        "- t node 1 vs 2: inconsistent vectors: 1 / 3, inconsistent payloads: 2 / 3"
    );
}

#[test]
fn node_with_fewer_points_than_its_neighbour_ends_the_comparison() {
    let nodes = vec![node(&[1]), node(&[])];
    assert_eq!(first_short_pair(&nodes), Some(0));
    assert_eq!(
        cross_node_cycle(&nodes),
        Err(CrossNodeFault::Short { pair: 0, left: 1, right: 0 })
    );
    let nodes = vec![node(&[1, 2, 3]), node(&[1, 2, 3]), node(&[1, 2])];
    assert_eq!(first_short_pair(&nodes), Some(1));
    assert_eq!(
        cross_node_cycle(&nodes),
        Err(CrossNodeFault::Short { pair: 1, left: 3, right: 2 })
    );
}

#[test]
fn length_is_looked_at_before_the_identifiers() {
    let nodes = vec![node(&[1, 2]), node(&[1, 3]), node(&[1])];
    assert_eq!(
        cross_node_cycle(&nodes),
        Err(CrossNodeFault::Short { pair: 1, left: 2, right: 1 })
    );
    let nodes = vec![node(&[1, 2]), node(&[1, 3])];
    assert_eq!(
        cross_node_cycle(&nodes),
        Err(CrossNodeFault::Split {
            fault: StructuralFault { pair: 0, position: 1, left_id: 2, right_id: 3 }
        })
    );
}

#[test]
fn nodes_of_equal_length_are_tallied() {
    let mut last = node(&[1, 2, 3]);
    last[0] = point(1, "other", &[1, 2, 3]);
    let nodes = vec![node(&[1, 2, 3]), node(&[1, 2, 3]), last];
    assert_eq!(first_short_pair(&nodes), None);
    assert_eq!(
        cross_node_cycle(&nodes),
        Ok(vec![
            PairTally { compared: 3, vector_mismatches: 0, payload_mismatches: 0 },
            PairTally { compared: 3, vector_mismatches: 0, payload_mismatches: 1 },
        ])
    );
    assert_eq!(first_short_pair(&vec![]), None);
    assert_eq!(cross_node_cycle(&vec![node(&[1])]), Ok(vec![]));
}
