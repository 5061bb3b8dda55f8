use consistency_harness::ranges::{compress, format_ranges, render_ranges, IdRange};
use consistency_harness::text::{decimal_string, join_lines};

#[test]
fn formats_runs_as_half_open_ranges() {
    assert_eq!(format_ranges(&[3, 4, 5, 9, 10, 15]), "3..6,9..11,15..16");
}

#[test]
fn formats_nothing_for_an_empty_list() {
    assert_eq!(format_ranges(&[]), "");
}

#[test]
fn formats_a_single_identifier_as_a_range_of_one() {
    assert_eq!(format_ranges(&[7]), "7..8");
    assert_eq!(format_ranges(&[1, 3, 5]), "1..2,3..4,5..6");
}

#[test]
fn formats_one_long_run_as_one_range() {
    let ids: Vec<u64> = (200..400).collect();
    assert_eq!(format_ranges(&ids), "200..400");
}

#[test]
fn formats_the_greatest_identifier() {
    assert_eq!(format_ranges(&[u64::MAX]), "18446744073709551615..18446744073709551616");
    assert_eq!(
        format_ranges(&[u64::MAX - 1, u64::MAX]),
        "18446744073709551614..18446744073709551616"
    );
}

#[test]
fn repeated_and_descending_identifiers_start_new_ranges() {
    assert_eq!(format_ranges(&[5, 5]), "5..6,5..6");
    assert_eq!(format_ranges(&[3, 2, 1]), "3..4,2..3,1..2");
}

#[test]
fn compress_gives_the_runs() {
    let ranges = compress(&[3, 4, 5, 9, 10, 15]);
    assert_eq!(
        ranges,
        vec![
            IdRange { start: 3, last: 5 },
            IdRange { start: 9, last: 10 },
            IdRange { start: 15, last: 15 },
        ]
    );
}

#[test]
fn ranges_expand_to_the_list() {
    let ids: Vec<u64> = vec![0, 1, 2, 10, 11, 40, 42, 43, 44, 45];
    let mut back: Vec<u64> = Vec::new();
    for range in compress(&ids) {
        assert!(range.start <= range.last);
        for id in range.start..=range.last {
            back.push(id);
        }
    }
    assert_eq!(back, ids);
}

#[test]
fn neighbouring_ranges_never_touch() {
    let ids: Vec<u64> = vec![0, 1, 2, 4, 5, 9, 10, 11, 12, 20];
    let ranges = compress(&ids);
    for pair in ranges.windows(2) {
        assert!(pair[0].last + 1 < pair[1].start);
    }
}

#[test]
fn render_ranges_joins_with_commas() {
    let ranges = vec![IdRange { start: 0, last: 0 }, IdRange { start: 10, last: 19 }];
    assert_eq!(render_ranges(&ranges), "0..1,10..20");
}

#[test]
fn decimal_of_zero_and_of_the_greatest() {
    assert_eq!(decimal_string(0), "0");
    assert_eq!(decimal_string(10), "10");
    assert_eq!(decimal_string(1234567890), "1234567890");
    assert_eq!(decimal_string(u64::MAX), "18446744073709551615");
}

#[test]
fn lines_are_joined_by_line_feeds() {
    assert_eq!(join_lines(&vec![]), "");
    assert_eq!(join_lines(&vec![String::from("a")]), "a");
    assert_eq!(
        join_lines(&vec![String::from("a"), String::from(""), String::from("c")]),
        "a\n\nc"
    );
}
