use chrono::{DateTime, Utc};
use shunit::logline::LogLine;
use shunit::merge::{interleave, join_and_sort, merge_streams, sort_by_time};
use shunit::timestamp::Timestamp;
use std::str::FromStr;

fn line(secs: i64, nanos: u32, text: &str) -> LogLine {
    LogLine::new(Timestamp::new(secs, nanos), text.to_string())
}

fn texts(lines: &[LogLine]) -> Vec<&str> {
    lines.iter().map(|l| l.text.as_str()).collect()
}

#[test]
fn merge_puts_stdout_first_on_equal_times() {
    let t = Timestamp::new(1648980828, 5);
    let stdout = vec![LogLine::new(t, "x".to_string())];
    let stderr = vec![LogLine::new(t, "y".to_string())];
    let merged = join_and_sort(stdout, stderr);
    assert_eq!(merged, vec![LogLine::new(t, "x".to_string()), LogLine::new(t, "y".to_string())]);
}

#[test]
fn merge_of_nothing_is_nothing() {
    assert_eq!(join_and_sort(vec![], vec![]), Vec::<LogLine>::new());
}

#[test]
fn merge_with_one_empty_stream_keeps_the_other() {
    let lines = vec![line(1, 0, "a"), line(2, 0, "b")];
    assert_eq!(join_and_sort(lines.clone(), vec![]), lines);
    assert_eq!(join_and_sort(vec![], lines.clone()), lines);
}

#[test]
fn merge_interleaves_by_time() {
    let stdout = vec![line(1, 0, "o1"), line(3, 0, "o3"), line(5, 0, "o5")];
    let stderr = vec![line(2, 0, "e2"), line(4, 0, "e4"), line(6, 0, "e6")];
    let merged = join_and_sort(stdout, stderr);
    assert_eq!(texts(&merged), vec!["o1", "e2", "o3", "e4", "o5", "e6"]);
}

#[test]
fn merge_orders_by_nanoseconds_within_a_second() {
    let stdout = vec![line(7, 500, "o"), line(8, 0, "p")];
    let stderr = vec![line(7, 499, "e"), line(7, 501, "f")];
    let merged = merge_streams(&stdout, &stderr);
    assert_eq!(texts(&merged), vec!["e", "o", "f", "p"]);
}

#[test]
fn merge_orders_by_seconds_before_nanoseconds() {
    let stdout = vec![line(2, 0, "late")];
    let stderr = vec![line(1, 999_999_999, "early"), line(-1, 5, "before the epoch")];
    let merged = merge_streams(&stdout, &stderr);
    assert_eq!(texts(&merged), vec!["before the epoch", "early", "late"]);
}

#[test]
fn merge_sorts_streams_that_are_out_of_order() {
    let stdout = vec![line(5, 0, "o5"), line(1, 0, "o1"), line(3, 0, "o3")];
    let stderr = vec![line(4, 0, "e4"), line(2, 0, "e2")];
    let merged = join_and_sort(stdout, stderr);
    assert_eq!(texts(&merged), vec!["o1", "e2", "o3", "e4", "o5"]);
}

#[test]
fn merge_is_stable_within_and_across_streams() {
    let stdout = vec![line(1, 0, "o-a"), line(1, 0, "o-b"), line(0, 0, "o-c"), line(1, 0, "o-d")];
    let stderr = vec![line(1, 0, "e-a"), line(0, 0, "e-b"), line(1, 0, "e-c")];
    let merged = join_and_sort(stdout, stderr);
    assert_eq!(texts(&merged), vec!["o-c", "e-b", "o-a", "o-b", "o-d", "e-a", "e-c"]);
}

#[test]
fn merged_times_never_go_back() {
    let mut stdout = Vec::new();
    let mut stderr = Vec::new();
    let mut seed: u64 = 12345;
    for i in 0..200 {
        seed = seed.wrapping_mul(6364136223846793005).wrapping_add(1442695040888963407);
        let secs = i64::try_from((seed >> 33) % 7).unwrap() - 3;
        let nanos = u32::try_from((seed >> 20) % 3).unwrap();
        let entry = line(secs, nanos, &i.to_string());
        if seed & 1 == 0 {
            stdout.push(entry);
        } else {
            stderr.push(entry);
        }
    }
    let total = stdout.len() + stderr.len();
    let merged = join_and_sort(stdout.clone(), stderr.clone());
    assert_eq!(merged.len(), total);
    for pair in merged.windows(2) {
        let (a, b) = (pair[0].timestamp, pair[1].timestamp);
        assert!((a.secs, a.nanos) <= (b.secs, b.nanos));
    }
    let mut expected: Vec<LogLine> = stdout;
    expected.extend(stderr);
    expected.sort_by_key(|entry| (entry.timestamp.secs, entry.timestamp.nanos));
    assert_eq!(merged, expected);
}

#[test]
fn sort_by_time_is_stable() {
    let lines = vec![line(2, 0, "a"), line(1, 0, "b"), line(2, 0, "c"), line(1, 0, "d")];
    let sorted = sort_by_time(&lines);
    assert_eq!(texts(&sorted), vec!["b", "d", "a", "c"]);
}

#[test]
fn sort_by_time_leaves_ordered_input_alone() {
    let lines = vec![line(1, 0, "a"), line(1, 0, "b"), line(1, 1, "c"), line(2, 0, "d")];
    assert_eq!(sort_by_time(&lines), lines);
}

#[test]
fn interleave_takes_the_earlier_front() {
    let a = vec![line(1, 0, "a1"), line(4, 0, "a4")];
    let b = vec![line(1, 0, "b1"), line(2, 0, "b2"), line(9, 0, "b9")];
    assert_eq!(texts(&interleave(&a, &b)), vec!["a1", "b1", "b2", "a4", "b9"]);
}

#[test]
fn timestamps_compare_as_their_instants_do() {
    let instants = [
        "2022-04-03 10:13:48 UTC",
        "2022-04-03 10:13:48.000000001 UTC",
        "2022-04-03 10:13:48.999999999 UTC",
        "2022-04-03 10:13:49 UTC",
        "1969-12-31 23:59:59.5 UTC",
        "1970-01-01 00:00:00 UTC",
        "2016-12-31 23:59:60.25 UTC",
        "2017-01-01 00:00:00 UTC",
    ];
    for a in instants {
        for b in instants {
            let da: DateTime<Utc> = DateTime::from_str(a).unwrap();
            let db: DateTime<Utc> = DateTime::from_str(b).unwrap();
            let ta = Timestamp::new(da.timestamp(), da.timestamp_subsec_nanos());
            let tb = Timestamp::new(db.timestamp(), db.timestamp_subsec_nanos());
            assert_eq!(ta.is_before(&tb), da < db);
            assert_eq!(ta.is_not_after(&tb), da <= db);
            assert_eq!(ta == tb, da == db);
        }
    }
}

#[test]
fn sorting_twice_is_sorting_once() {
    let lines = vec![line(3, 0, "a"), line(1, 0, "b"), line(3, 0, "c"), line(2, 0, "d")];
    let once = sort_by_time(&lines);
    assert_eq!(sort_by_time(&once), once);
}
