use dictum_core::stats::{
    aggregate_stats, date_text, dated_rows, day_buckets, history_cutoff, history_stats, prune_cutoff,
    stats_range_days, DatedRow, Day, DayStats, StatRow,
};

fn day(year: i32, month: u32, day: u32) -> Day {
    Day { year, month, day }
}

fn row(d: Day, words: usize, chars: usize, latency_ms: i64) -> DatedRow {
    DatedRow { day: d, words, chars, latency_ms }
}

#[test]
fn days_are_summed_in_order() {
    let rows = vec![
        row(day(2026, 3, 2), 3, 10, 100),
        row(day(2026, 3, 1), 1, 5, -7),
        row(day(2026, 3, 2), 2, 8, 50),
        row(day(2025, 12, 31), 4, 20, 10),
        row(day(2026, 3, 1), 1, 1, 1),
    ];
    let buckets = day_buckets(&rows);
    assert_eq!(
        buckets,
        vec![
            DayStats { day: day(2025, 12, 31), utterances: 1, words: 4, chars: 20, latency_total: 10 },
            DayStats { day: day(2026, 3, 1), utterances: 2, words: 2, chars: 6, latency_total: 1 },
            DayStats { day: day(2026, 3, 2), utterances: 2, words: 5, chars: 18, latency_total: 150 },
        ]
    );
    let stats = aggregate_stats(30, &rows);
    assert_eq!(stats.range_days, 30);
    assert_eq!(
        (stats.total_utterances, stats.total_words, stats.total_chars, stats.latency_total),
        (5, 11, 44, 161)
    );
    assert_eq!(stats.buckets, buckets);
    let none = aggregate_stats(0, &vec![]);
    assert_eq!(none.range_days, 1);
    assert_eq!((none.total_utterances, none.latency_total), (0, 0));
    assert!(none.buckets.is_empty());
}

#[test]
fn sums_stop_at_the_largest_number() {
    let rows = vec![row(day(1, 1, 1), usize::MAX, 1, i64::MAX), row(day(1, 1, 1), 5, 2, 9)];
    let stats = aggregate_stats(1, &rows);
    assert_eq!(stats.total_words, usize::MAX);
    assert_eq!(stats.total_chars, 3);
    assert_eq!(stats.latency_total, i64::MAX);
    assert_eq!(stats.buckets[0].words, usize::MAX);
    assert_eq!(stats.buckets[0].utterances, 2);
}

#[test]
fn ranges_stay_within_a_year() {
    assert_eq!(stats_range_days(0), 1);
    assert_eq!(stats_range_days(1), 1);
    assert_eq!(stats_range_days(30), 30);
    assert_eq!(stats_range_days(365), 365);
    assert_eq!(stats_range_days(366), 365);
}

#[test]
fn timestamps_fall_on_their_days() {
    let today = day(2030, 1, 1);
    let rows = vec![
        StatRow { created_at: 0, words: 1, chars: 1, latency_ms: 1 },
        StatRow { created_at: 86_399, words: 1, chars: 1, latency_ms: 1 },
        StatRow { created_at: 86_400, words: 1, chars: 1, latency_ms: 1 },
        StatRow { created_at: 1_709_251_200, words: 2, chars: 2, latency_ms: 2 },
        StatRow { created_at: -1, words: 3, chars: 3, latency_ms: 3 },
        StatRow { created_at: i64::MAX, words: 4, chars: 4, latency_ms: 4 },
    ];
    let dated = dated_rows(&rows, today);
    let days: Vec<Day> = dated.iter().map(|r| r.day).collect();
    assert_eq!(
        days,
        vec![day(1970, 1, 1), day(1970, 1, 1), day(1970, 1, 2), day(2024, 3, 1), day(1969, 12, 31), today]
    );
    assert_eq!(dated[3].words, 2);
    let stats = history_stats(400, &rows, today);
    assert_eq!(stats.range_days, 365);
    assert_eq!(stats.total_utterances, 6);
    let bucket_days: Vec<String> = stats.buckets.iter().map(|b| date_text(b.day)).collect();
    assert_eq!(bucket_days, vec!["1969-12-31", "1970-01-01", "1970-01-02", "2024-03-01", "2030-01-01"]);
    assert_eq!(stats.buckets[1].utterances, 2);
}

#[test]
fn days_are_written_with_leading_zeros() {
    assert_eq!(date_text(day(2026, 3, 9)), "2026-03-09");
    assert_eq!(date_text(day(7, 12, 31)), "0007-12-31");
    assert_eq!(date_text(day(12345, 1, 1)), "12345-01-01");
    assert_eq!(date_text(day(-5, 1, 1)), format!("{:04}-{:02}-{:02}", -5, 1, 1));
    assert_eq!(date_text(day(-5, 1, 1)), "-005-01-01");
    assert_eq!(date_text(day(i32::MIN, 0, 100)), format!("{:04}-{:02}-{:02}", i32::MIN, 0, 100));
}

#[test]
fn records_age_by_days() {
    assert_eq!(history_cutoff(1_000_000, 1), 1_000_000 - 86_400);
    assert_eq!(history_cutoff(1_000_000, 0), 1_000_000);
    assert_eq!(history_cutoff(0, 30), -30 * 86_400);
    assert_eq!(history_cutoff(i64::MIN + 5, 1), i64::MIN);
    assert_eq!(history_cutoff(i64::MAX, usize::MAX), i64::MIN);
    assert_eq!(prune_cutoff(1_000_000, 0), None);
    assert_eq!(prune_cutoff(1_000_000, 90), Some(1_000_000 - 90 * 86_400));
}
