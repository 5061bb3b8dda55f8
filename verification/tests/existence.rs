use consistency_harness::checker::{existence_cycle, existence_descriptions};
use consistency_harness::existence::{
    beyond, check_existence, has_no_repeat, occurs_in, unreturned,
};
use consistency_harness::point_id::{point_num, point_nums, PointId, UnsupportedId};
use consistency_harness::window::{consecutive, Window};

fn window(round: u64, width: u64) -> Window {
    Window::for_round(round, width).unwrap()
}

#[test]
fn window_of_a_round_starts_at_round_times_width() {
    assert_eq!(Window::for_round(0, 200), Some(Window { start: 0, width: 200 }));
    assert_eq!(Window::for_round(3, 200), Some(Window { start: 600, width: 200 }));
    assert_eq!(Window::for_round(7, 1), Some(Window { start: 7, width: 1 }));
}

#[test]
fn window_is_refused_where_it_is_out_of_range() {
    assert_eq!(Window::for_round(u64::MAX, 2), None);
    assert_eq!(Window::for_round(u64::MAX, 1), Some(Window { start: u64::MAX, width: 1 }));
    assert_eq!(Window::for_round(1, u64::MAX), None);
    assert_eq!(Window::for_round(0, u64::MAX), Some(Window { start: 0, width: u64::MAX }));
}

#[test]
fn window_holds_its_identifiers_only() {
    let w = window(2, 10);
    assert!(!w.holds(19));
    assert!(w.holds(20));
    assert!(w.holds(29));
    assert!(!w.holds(30));
}

#[test]
fn consecutive_counts_up_from_the_first() {
    assert_eq!(consecutive(5, 0), Vec::<u64>::new());
    assert_eq!(consecutive(5, 3), vec![5, 6, 7]);
    assert_eq!(consecutive(u64::MAX - 1, 2), vec![u64::MAX - 1, u64::MAX]);
}

#[test]
fn exact_window_passes_in_any_order() {
    let w = window(1, 5);
    assert!(check_existence(&vec![5, 6, 7, 8, 9], w).is_ok());
    assert!(check_existence(&vec![9, 5, 7, 6, 8], w).is_ok());
}

#[test]
fn every_round_passes_on_its_own_window() {
    for round in 0..20u64 {
        let w = window(round, 200);
        let mut ids: Vec<u64> = (round * 200..round * 200 + 200).collect();
        ids.reverse();
        assert!(check_existence(&ids, w).is_ok());
        let stale: Vec<u64> = ((round + 1) * 200..(round + 1) * 200 + 200).collect();
        assert!(check_existence(&stale, w).is_err());
    }
}

#[test]
fn empty_node_is_reported_with_the_whole_window_missing() {
    let w = window(1, 200);
    let report = check_existence(&vec![], w).unwrap_err();
    assert_eq!(report.expected, w);
    assert!(report.observed.is_empty());
    assert_eq!(report.missing, (200..400).collect::<Vec<u64>>());
    assert!(report.extra.is_empty());
    assert_eq!(
        report.description(),
        "expect 200..400, got zero points (len: 0 vs 200), missing 200..400"
    );
}

#[test]
fn missing_batch_is_reported_as_its_range() {
    let w = window(2, 200);
    let ids: Vec<u64> = (400..600).filter(|id| !(450..475).contains(id)).collect();
    let report = check_existence(&ids, w).unwrap_err();
    assert_eq!(report.missing, (450..475).collect::<Vec<u64>>());
    assert!(report.extra.is_empty());
    assert_eq!(
        report.description(),
        "expect 400..600, got 400..450,475..600 (len: 175 vs 200), missing 450..475"
    );
}

#[test]
fn stale_identifiers_are_reported_as_extra() {
    let w = window(1, 5);
    let report = check_existence(&vec![9, 8, 7, 6, 5, 4, 3], w).unwrap_err();
    assert_eq!(report.observed, vec![3, 4, 5, 6, 7, 8, 9]);
    assert!(report.missing.is_empty());
    assert_eq!(report.extra, vec![3, 4]);
    assert_eq!(
        report.description(),
        "expect 5..10, got 3..10 (len: 7 vs 5), extra 3..5"
    );
}

#[test]
fn missing_and_extra_are_reported_together() {
    let w = window(1, 5);
    let report = check_existence(&vec![12, 9, 5, 2], w).unwrap_err();
    assert_eq!(report.observed, vec![2, 5, 9, 12]);
    assert_eq!(report.missing, vec![6, 7, 8]);
    assert_eq!(report.extra, vec![2, 12]);
    assert_eq!(
        report.description(),
        "expect 5..10, got 2..3,5..6,9..10,12..13 (len: 4 vs 5), missing 6..9, extra 2..3,12..13"
    );
}

#[test]
fn duplicate_is_a_failure_even_with_the_right_bounds_and_length() {
    let w = window(0, 4);
    let report = check_existence(&vec![0, 1, 1, 3], w).unwrap_err();
    assert_eq!(report.observed, vec![0, 1, 1, 3]);
    assert_eq!(report.missing, vec![2]);
    assert!(report.extra.is_empty());
    let report = check_existence(&vec![0, 1, 2, 3, 3], w).unwrap_err();
    assert!(report.missing.is_empty());
    assert!(report.extra.is_empty());
    assert_eq!(report.description(), "expect 0..4, got 0..4,3..4 (len: 5 vs 4)");
}

#[test]
fn wrong_lowest_wrong_highest_wrong_count() {
    let w = window(1, 3);
    assert!(check_existence(&vec![2, 4, 5], w).is_err());
    assert!(check_existence(&vec![3, 4, 6], w).is_err());
    assert!(check_existence(&vec![3, 5], w).is_err());
    assert!(check_existence(&vec![3, 4, 5], w).is_ok());
}

#[test]
fn window_at_the_top_of_the_range() {
    let w = Window { start: u64::MAX - 1, width: 2 };
    assert!(check_existence(&vec![u64::MAX, u64::MAX - 1], w).is_ok());
    let report = check_existence(&vec![u64::MAX - 1], w).unwrap_err();
    assert_eq!(report.missing, vec![u64::MAX]);
    assert_eq!(
        report.description(),
        "expect 18446744073709551614..18446744073709551616, got 18446744073709551614..18446744073709551615 (len: 1 vs 2), missing 18446744073709551615..18446744073709551616"
    );
}

#[test]
fn helpers_on_sorted_lists() {
    assert!(has_no_repeat(&vec![]));
    assert!(has_no_repeat(&vec![1, 2, 9]));
    assert!(!has_no_repeat(&vec![1, 2, 2]));
    assert!(!has_no_repeat(&vec![1, 3, 2, 4]));
    let w = window(1, 4);
    assert_eq!(beyond(&vec![1, 4, 6, 6, 9], w), vec![1, 9]);
    assert_eq!(beyond(&vec![9, 5, 1], w), vec![9, 1]);
}

#[test]
fn cycle_reports_the_node_that_dropped_an_upsert_and_no_other() {
    let w = window(3, 200);
    let full: Vec<u64> = (600..800).collect();
    let dropped: Vec<u64> = (600..800).filter(|id| !(625..650).contains(id)).collect();
    let nodes = vec![full.clone(), dropped, full];
    let findings = existence_cycle(&nodes, w);
    assert_eq!(findings.len(), 3);
    assert!(findings[0].is_none());
    assert!(findings[2].is_none());
    let report = findings[1].as_ref().unwrap();
    assert_eq!(report.missing, (625..650).collect::<Vec<u64>>());
    assert!(report.extra.is_empty());
    let descriptions = existence_descriptions(&findings);
    assert_eq!(
        descriptions,
        vec![
            None,
            Some(String::from(
                "expect 600..800, got 600..625,650..800 (len: 175 vs 200), missing 625..650"
            )),
            None,
        ]
    );
}

#[test]
fn cycle_without_nodes_has_no_finding() {
    assert!(existence_cycle(&vec![], window(0, 1)).is_empty());
}

#[test]
fn unreturned_identifiers_keep_the_order_of_asking() {
    assert_eq!(unreturned(&vec![5, 1, 9, 3], &vec![3, 5]), vec![1, 9]);
    assert_eq!(unreturned(&vec![5, 1], &vec![1, 5, 7]), Vec::<u64>::new());
    assert_eq!(unreturned(&vec![2, 2], &vec![]), vec![2, 2]);
    assert!(occurs_in(&vec![4, 6], 6));
    assert!(!occurs_in(&vec![4, 6], 5));
}

#[test]
fn numeric_identifiers_are_read_and_others_refused() {
    assert_eq!(point_num(&PointId::Num(17)), Some(17));
    assert_eq!(point_num(&PointId::Uuid(String::from("550e8400-e29b-41d4-a716-446655440000"))), None);
    assert_eq!(point_nums(&vec![PointId::Num(2), PointId::Num(1)]), Ok(vec![2, 1]));
    assert_eq!(point_nums(&vec![]), Ok(vec![]));
    assert_eq!(
        point_nums(&vec![
            PointId::Num(2),
            PointId::Uuid(String::from("a")),
            PointId::Uuid(String::from("b")),
        ]),
        Err(UnsupportedId { position: 1 })
    );
}

#[test]
fn round_of_no_width_has_the_empty_window() {
    assert_eq!(Window::for_round(0, 0), Some(Window { start: 0, width: 0 }));
    assert_eq!(Window::for_round(5, 0), Some(Window { start: 0, width: 0 }));
    assert_eq!(Window::for_round(u64::MAX, 0), Some(Window { start: 0, width: 0 }));
    assert!(!Window { start: 0, width: 0 }.holds(0));
}

#[test]
fn empty_window_passes_on_a_node_that_holds_nothing() {
    let empty = Window::for_round(3, 0).unwrap();
    assert!(check_existence(&vec![], empty).is_ok());
    let report = check_existence(&vec![6, 5], empty).unwrap_err();
    assert_eq!(report.observed, vec![5, 6]);
    assert!(report.missing.is_empty());
    assert_eq!(report.extra, vec![5, 6]);
    assert_eq!(report.description(), "expect 0..0, got 5..7 (len: 2 vs 0), extra 5..7");
    let findings = existence_cycle(&vec![vec![], vec![1]], empty);
    assert!(findings[0].is_none());
    assert!(findings[1].is_some());
}
