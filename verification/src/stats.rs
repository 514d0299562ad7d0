//! The statistics of the history: what was dictated, day by day.
//!
//! Sums stop at the largest number of their type; averages are left to
//! the caller, who has the sums and the counts.

use vstd::prelude::*;
use vstd::string::*;
use chrono::{Datelike, TimeZone, Utc};
use crate::text::{decimal, push_decimal, string_of};

verus! {

/// A day of the calendar.
#[derive(Debug, Clone, Copy, PartialEq, Eq, Structural)]
pub struct Day {
    pub year: i32,
    pub month: u32,
    pub day: u32,
}

/// The year, the month and the day of the month on which a timestamp, in
/// seconds since 1970, falls in universal time; none for a timestamp out of range.
pub uninterp spec fn utc_day_of(timestamp: i64) -> Option<(i32, u32, u32)>;

/// `TimeZone::timestamp_opt` on `Utc` and the `year`, `month` and `day`
/// of `Datelike`, all of the `chrono` crate: the day of a timestamp in
/// universal time, or nothing for a timestamp out of range. The contract
/// names the result.
#[verifier::external_body]
fn utc_day(timestamp: i64) -> (r: Option<(i32, u32, u32)>)
    ensures
        r == utc_day_of(timestamp),
{
    Utc.timestamp_opt(timestamp, 0).single().map(|dt| (dt.year(), dt.month(), dt.day()))
}

/// `a` is an earlier day than `b`.
pub open spec fn day_before(a: Day, b: Day) -> bool {
    a.year < b.year || (a.year == b.year && (a.month < b.month || (a.month == b.month && a.day
        < b.day)))
}

fn is_day_before(a: Day, b: Day) -> (r: bool)
    ensures
        r == day_before(a, b),
{
    a.year < b.year || (a.year == b.year && (a.month < b.month || (a.month == b.month && a.day
        < b.day)))
}

// ---------------------------------------------------------------------------
// Rows and sums
// ---------------------------------------------------------------------------

/// What the history holds of one dictation, for the statistics.
#[derive(Debug, Clone, Copy, PartialEq, Eq, Structural)]
pub struct StatRow {
    /// When it was recorded, in seconds since 1970.
    pub created_at: i64,
    pub words: usize,
    pub chars: usize,
    pub latency_ms: i64,
}

/// A dictation with the day on which it was recorded.
#[derive(Debug, Clone, Copy, PartialEq, Eq, Structural)]
pub struct DatedRow {
    pub day: Day,
    pub words: usize,
    pub chars: usize,
    pub latency_ms: i64,
}

/// The sums of the dictations of one day.
#[derive(Debug, Clone, Copy, PartialEq, Eq, Structural)]
pub struct DayStats {
    pub day: Day,
    pub utterances: usize,
    pub words: usize,
    pub chars: usize,
    /// The latencies added up, a negative one counted as 0.
    pub latency_total: i64,
}

/// The statistics of a range of days.
#[derive(Debug, Clone)]
pub struct Stats {
    pub range_days: usize,
    pub total_utterances: usize,
    pub total_words: usize,
    pub total_chars: usize,
    pub latency_total: i64,
    /// The days that have dictations, the earliest first.
    pub buckets: Vec<DayStats>,
}

/// The sum of two counts, which stops at the largest number.
pub open spec fn plus(a: usize, b: usize) -> usize {
    if a + b > usize::MAX {
        usize::MAX
    } else {
        (a + b) as usize
    }
}

/// A sum of latencies with one more, which stops at the largest number;
/// a negative latency counts as 0.
pub open spec fn plus_latency(total: i64, latency: i64) -> i64 {
    let l: int = if latency < 0 {
        0
    } else {
        latency as int
    };
    if total + l > i64::MAX {
        i64::MAX
    } else {
        (total + l) as i64
    }
}

/// The sums with one more dictation in them.
pub open spec fn counted_in(d: DayStats, row: DatedRow) -> DayStats {
    DayStats {
        day: d.day,
        utterances: plus(d.utterances, 1),
        words: plus(d.words, row.words),
        chars: plus(d.chars, row.chars),
        latency_total: plus_latency(d.latency_total, row.latency_ms),
    }
}

/// The sums of a day without dictations.
pub open spec fn empty_day(day: Day) -> DayStats {
    DayStats { day, utterances: 0, words: 0, chars: 0, latency_total: 0 }
}

/// The sums of the dictations of `day` among `rows`, taken in their order.
pub open spec fn day_stats(rows: Seq<DatedRow>, day: Day) -> DayStats
    decreases rows.len(),
{
    if rows.len() == 0 {
        empty_day(day)
    } else if rows.last().day == day {
        counted_in(day_stats(rows.drop_last(), day), rows.last())
    } else {
        day_stats(rows.drop_last(), day)
    }
}

/// The day that the sums of all rows stand under.
pub open spec fn no_day() -> Day {
    Day { year: 0, month: 0, day: 0 }
}

/// The sums of all of `rows`, taken in their order, under no day.
pub open spec fn all_stats(rows: Seq<DatedRow>) -> DayStats
    decreases rows.len(),
{
    if rows.len() == 0 {
        empty_day(no_day())
    } else {
        counted_in(all_stats(rows.drop_last()), rows.last())
    }
}

/// Some row is of the day `day`.
pub open spec fn has_day(rows: Seq<DatedRow>, day: Day) -> bool {
    exists|i: int| 0 <= i < rows.len() && (#[trigger] rows[i]).day == day
}

/// Some bucket is of the day `day`.
pub open spec fn has_bucket(buckets: Seq<DayStats>, day: Day) -> bool {
    exists|k: int| 0 <= k < buckets.len() && (#[trigger] buckets[k]).day == day
}

/// `buckets` are the days of `rows`: each day that has a row once, the
/// earliest first, with the sums of its rows.
pub open spec fn are_days_of(rows: Seq<DatedRow>, buckets: Seq<DayStats>) -> bool {
    &&& forall|k: int|
        0 <= k < buckets.len() - 1 ==> day_before((#[trigger] buckets[k]).day, buckets[k + 1].day)
    &&& forall|k: int|
        0 <= k < buckets.len() ==> #[trigger] buckets[k] == day_stats(rows, buckets[k].day)
            && has_day(rows, buckets[k].day)
    &&& forall|i: int| 0 <= i < rows.len() ==> has_bucket(buckets, (#[trigger] rows[i]).day)
}

/// The sums of a day that no row is of are empty.
proof fn lemma_day_without_rows(rows: Seq<DatedRow>, day: Day)
    requires
        !has_day(rows, day),
    ensures
        day_stats(rows, day) == empty_day(day),
    decreases rows.len(),
{
    if rows.len() > 0 {
        let before = rows.drop_last();
        assert(rows[rows.len() - 1].day != day);
        assert(!has_day(before, day)) by {
            if has_day(before, day) {
                let i = choose|i: int| 0 <= i < before.len() && (#[trigger] before[i]).day == day;
                assert(rows[i].day == day);
            }
        }
        lemma_day_without_rows(before, day);
    }
}

/// A count with a dictation in it.
fn count_in(d: DayStats, row: DatedRow) -> (r: DayStats)
    ensures
        r == counted_in(d, row),
{
    let latency: i64 = if row.latency_ms < 0 {
        0
    } else {
        row.latency_ms
    };
    DayStats {
        day: d.day,
        utterances: if d.utterances == usize::MAX {
            usize::MAX
        } else {
            d.utterances + 1
        },
        words: if d.words > usize::MAX - row.words {
            usize::MAX
        } else {
            d.words + row.words
        },
        chars: if d.chars > usize::MAX - row.chars {
            usize::MAX
        } else {
            d.chars + row.chars
        },
        latency_total: if d.latency_total > i64::MAX - latency {
            i64::MAX
        } else {
            d.latency_total + latency
        },
    }
}

/// The days of `rows` with their sums, the earliest first.
pub fn day_buckets(rows: &Vec<DatedRow>) -> (buckets: Vec<DayStats>)
    ensures
        are_days_of(rows@, buckets@),
{
    let mut buckets: Vec<DayStats> = Vec::new();
    let mut i: usize = 0;
    while i < rows.len()
        invariant
            i <= rows.len(),
            are_days_of(rows@.take(i as int), buckets@),
        decreases rows.len() - i,
    {
        let row = rows[i];
        let ghost seen = rows@.take(i as int);
        let ghost next = rows@.take(i + 1);
        assert(next.drop_last() =~= seen);
        assert(next.last() == row);
        // The first bucket that is not of an earlier day.
        let mut p: usize = 0;
        while p < buckets.len() && is_day_before(buckets[p].day, row.day)
            invariant
                p <= buckets@.len(),
                forall|k: int| 0 <= k < p ==> day_before((#[trigger] buckets@[k]).day, row.day),
            decreases buckets@.len() - p,
        {
            p += 1;
        }
        let ghost before = buckets@;
        if p < buckets.len() && buckets[p].day == row.day {
            let updated = count_in(buckets[p], row);
            buckets.set(p, updated);
            proof {
                assert forall|k: int| 0 <= k < buckets@.len() implies #[trigger] buckets@[k]
                    == day_stats(next, buckets@[k].day) && has_day(next, buckets@[k].day) by {
                    let day = before[k].day;
                    assert(before[k] == day_stats(seen, day) && has_day(seen, day));
                    let j = choose|j: int| 0 <= j < seen.len() && (#[trigger] seen[j]).day == day;
                    assert(next[j] == seen[j]);
                    if k != p {
                        // Another day: the buckets are in strict order.
                        if k < p {
                            assert(day_before(before[k].day, row.day));
                        } else {
                            lemma_later_bucket(before, p as int, k);
                        }
                    }
                }
                assert forall|j: int| 0 <= j < next.len() implies has_bucket(
                    buckets@,
                    (#[trigger] next[j]).day,
                ) by {
                    if j < seen.len() {
                        assert(next[j] == seen[j]);
                        assert(has_bucket(before, seen[j].day));
                        let k = choose|k: int|
                            0 <= k < before.len() && (#[trigger] before[k]).day == seen[j].day;
                        assert(buckets@[k].day == seen[j].day);
                    } else {
                        assert(buckets@[p as int].day == row.day);
                    }
                }
                assert forall|k: int| 0 <= k < buckets@.len() - 1 implies day_before(
                    (#[trigger] buckets@[k]).day,
                    buckets@[k + 1].day,
                ) by {
                    assert(buckets@[k].day == before[k].day);
                    assert(buckets@[k + 1].day == before[k + 1].day);
                }
            }
        } else {
            let fresh = count_in(
                DayStats { day: row.day, utterances: 0, words: 0, chars: 0, latency_total: 0 },
                row,
            );
            buckets.insert(p, fresh);
            proof {
                assert(buckets@ == before.insert(p as int, fresh));
                // No row before this one is of its day: a bucket would hold that day.
                assert(!has_day(seen, row.day)) by {
                    if has_day(seen, row.day) {
                        let j = choose|j: int|
                            0 <= j < seen.len() && (#[trigger] seen[j]).day == row.day;
                        assert(has_bucket(before, seen[j].day));
                        let k = choose|k: int|
                            0 <= k < before.len() && (#[trigger] before[k]).day == row.day;
                        if k < p {
                            assert(day_before(before[k].day, row.day));
                        } else if k > p {
                            lemma_later_bucket(before, p as int, k);
                        }
                    }
                }
                lemma_day_without_rows(seen, row.day);
                assert forall|k: int| 0 <= k < buckets@.len() implies #[trigger] buckets@[k]
                    == day_stats(next, buckets@[k].day) && has_day(next, buckets@[k].day) by {
                    if k == p {
                        assert(next[i as int].day == row.day);
                    } else {
                        let b = if k < p {
                            k
                        } else {
                            k - 1
                        };
                        assert(buckets@[k] == before[b]);
                        let day = before[b].day;
                        assert(before[b] == day_stats(seen, day) && has_day(seen, day));
                        let j = choose|j: int| 0 <= j < seen.len() && (#[trigger] seen[j]).day == day;
                        assert(next[j] == seen[j]);
                        if b < p {
                            assert(day_before(before[b].day, row.day));
                        } else if b > p {
                            lemma_later_bucket(before, p as int, b);
                        }
                    }
                }
                assert forall|j: int| 0 <= j < next.len() implies has_bucket(
                    buckets@,
                    (#[trigger] next[j]).day,
                ) by {
                    if j < seen.len() {
                        assert(next[j] == seen[j]);
                        assert(has_bucket(before, seen[j].day));
                        let k = choose|k: int|
                            0 <= k < before.len() && (#[trigger] before[k]).day == seen[j].day;
                        let at = if k < p {
                            k
                        } else {
                            k + 1
                        };
                        assert(buckets@[at] == before[k]);
                    } else {
                        assert(buckets@[p as int].day == row.day);
                    }
                }
                assert forall|k: int| 0 <= k < buckets@.len() - 1 implies day_before(
                    (#[trigger] buckets@[k]).day,
                    buckets@[k + 1].day,
                ) by {
                    if k + 1 < p {
                        assert(buckets@[k] == before[k] && buckets@[k + 1] == before[k + 1]);
                    } else if k + 1 == p {
                        assert(buckets@[k] == before[k]);
                        assert(day_before(before[k].day, row.day));
                    } else if k == p {
                        assert(buckets@[k + 1] == before[k]);
                        assert(!day_before(before[p as int].day, row.day));
                        assert(before[p as int].day != row.day);
                    } else {
                        assert(buckets@[k] == before[k - 1] && buckets@[k + 1] == before[k]);
                    }
                }
            }
        }
        i += 1;
    }
    assert(rows@.take(rows.len() as int) =~= rows@);
    buckets
}

/// In buckets that are in strict order a later bucket is of a later day.
proof fn lemma_later_bucket(buckets: Seq<DayStats>, p: int, k: int)
    requires
        0 <= p < k < buckets.len(),
        forall|j: int|
            0 <= j < buckets.len() - 1 ==> day_before((#[trigger] buckets[j]).day, buckets[j + 1].day),
    ensures
        day_before(buckets[p].day, buckets[k].day),
    decreases k - p,
{
    if p + 1 < k {
        lemma_later_bucket(buckets, p, k - 1);
        assert(day_before(buckets[k - 1].day, buckets[k].day));
    } else {
        assert(day_before(buckets[p].day, buckets[p + 1].day));
    }
}

/// The most days that statistics range over.
pub const MAX_STATS_RANGE_DAYS: usize = 365;

/// The days that statistics range over: what was asked for, between 1 and 365.
pub open spec fn stats_range(range_days: usize) -> usize {
    if range_days < 1 {
        1
    } else if range_days > MAX_STATS_RANGE_DAYS {
        MAX_STATS_RANGE_DAYS
    } else {
        range_days
    }
}

/// The days that statistics range over.
pub fn stats_range_days(range_days: usize) -> (n: usize)
    ensures
        n == stats_range(range_days),
{
    if range_days < 1 {
        1
    } else if range_days > MAX_STATS_RANGE_DAYS {
        MAX_STATS_RANGE_DAYS
    } else {
        range_days
    }
}

/// The statistics of dictations that carry their days.
pub fn aggregate_stats(range_days: usize, rows: &Vec<DatedRow>) -> (stats: Stats)
    ensures
        stats.range_days == stats_range(range_days),
        stats.total_utterances == all_stats(rows@).utterances,
        stats.total_words == all_stats(rows@).words,
        stats.total_chars == all_stats(rows@).chars,
        stats.latency_total == all_stats(rows@).latency_total,
        are_days_of(rows@, stats.buckets@),
{
    let mut total = DayStats {
        day: Day { year: 0, month: 0, day: 0 },
        utterances: 0,
        words: 0,
        chars: 0,
        latency_total: 0,
    };
    let mut i: usize = 0;
    assert(rows@.take(0) =~= Seq::<DatedRow>::empty());
    while i < rows.len()
        invariant
            i <= rows.len(),
            total == all_stats(rows@.take(i as int)),
        decreases rows.len() - i,
    {
        assert(rows@.take(i + 1).drop_last() =~= rows@.take(i as int));
        total = count_in(total, rows[i]);
        i += 1;
    }
    assert(rows@.take(rows.len() as int) =~= rows@);
    Stats {
        range_days: stats_range_days(range_days),
        total_utterances: total.utterances,
        total_words: total.words,
        total_chars: total.chars,
        latency_total: total.latency_total,
        buckets: day_buckets(rows),
    }
}

/// The dictations with their days: the day of each timestamp, or
/// `today` for a timestamp out of range.
pub open spec fn dated(rows: Seq<StatRow>, today: Day) -> Seq<DatedRow> {
    Seq::new(
        rows.len(),
        |i: int|
            DatedRow {
                day: match utc_day_of(rows[i].created_at) {
                    Some(d) => Day { year: d.0, month: d.1, day: d.2 },
                    None => today,
                },
                words: rows[i].words,
                chars: rows[i].chars,
                latency_ms: rows[i].latency_ms,
            },
    )
}

/// The dictations with their days.
pub fn dated_rows(rows: &Vec<StatRow>, today: Day) -> (out: Vec<DatedRow>)
    ensures
        out@ == dated(rows@, today),
{
    let mut out: Vec<DatedRow> = Vec::new();
    let mut i: usize = 0;
    while i < rows.len()
        invariant
            i <= rows.len(),
            out@.len() == i,
            forall|j: int| 0 <= j < i ==> #[trigger] out@[j] == dated(rows@, today)[j],
        decreases rows.len() - i,
    {
        let row = rows[i];
        let day = match utc_day(row.created_at) {
            Some(d) => Day { year: d.0, month: d.1, day: d.2 },
            None => today,
        };
        out.push(DatedRow { day, words: row.words, chars: row.chars, latency_ms: row.latency_ms });
        i += 1;
    }
    assert(out@ =~= dated(rows@, today));
    out
}

/// The statistics of the dictations of a range of days.
pub fn history_stats(range_days: usize, rows: &Vec<StatRow>, today: Day) -> (stats: Stats)
    ensures
        stats.range_days == stats_range(range_days),
        stats.total_utterances == all_stats(dated(rows@, today)).utterances,
        stats.total_words == all_stats(dated(rows@, today)).words,
        stats.total_chars == all_stats(dated(rows@, today)).chars,
        stats.latency_total == all_stats(dated(rows@, today)).latency_total,
        are_days_of(dated(rows@, today), stats.buckets@),
{
    aggregate_stats(range_days, &dated_rows(rows, today))
}

// ---------------------------------------------------------------------------
// Days as text, and the ends of ranges
// ---------------------------------------------------------------------------

/// `n` in decimal with zeros before it up to `width` digits.
pub open spec fn padded(n: nat, width: nat) -> Seq<char> {
    if decimal(n).len() >= width {
        decimal(n)
    } else {
        Seq::new((width - decimal(n).len()) as nat, |i: int| '0') + decimal(n)
    }
}

/// A day as the statistics show it: the year in four places, the month
/// and the day in two, with hyphens between; a year before 0 with its minus
/// sign in the first place.
pub open spec fn day_text(day: Day) -> Seq<char> {
    (if day.year < 0 {
        seq!['-'] + padded((-(day.year as int)) as nat, 3)
    } else {
        padded(day.year as nat, 4)
    }) + seq!['-'] + padded(day.month as nat, 2) + seq!['-'] + padded(day.day as nat, 2)
}

fn push_padded(out: &mut Vec<char>, n: u64, width: usize)
    ensures
        final(out)@ == old(out)@ + padded(n as nat, width as nat),
{
    let mut digits: Vec<char> = Vec::new();
    push_decimal(&mut digits, n);
    assert(digits@ =~= decimal(n as nat));
    let ghost start = out@;
    let mut k: usize = digits.len();
    while k < width
        invariant
            digits@ == decimal(n as nat),
            digits@.len() <= k,
            digits@.len() < width ==> k <= width,
            digits@.len() >= width ==> k == digits@.len(),
            out@ == start + Seq::new((k - digits@.len()) as nat, |i: int| '0'),
        decreases width - k,
    {
        out.push('0');
        assert(out@ =~= start + Seq::new((k + 1 - digits@.len()) as nat, |i: int| '0'));
        k += 1;
    }
    let ghost filled = out@;
    crate::text::push_chars(out, &digits);
    proof {
        assert(out@ == filled + digits@);
        if digits@.len() >= width {
            assert(filled =~= start);
        } else {
            assert(k == width);
            assert(padded(n as nat, width as nat) =~= Seq::new(
                (width - digits@.len()) as nat,
                |i: int| '0',
            ) + digits@);
        }
        assert(out@ =~= start + padded(n as nat, width as nat));
    }
}

/// A day as the statistics show it.
pub fn date_text(day: Day) -> (s: String)
    ensures
        s@ == day_text(day),
{
    let mut out: Vec<char> = Vec::new();
    if day.year < 0 {
        out.push('-');
        let year: i64 = day.year as i64;
        push_padded(&mut out, (-year) as u64, 3);
    } else {
        push_padded(&mut out, day.year as u64, 4);
    }
    out.push('-');
    push_padded(&mut out, day.month as u64, 2);
    out.push('-');
    push_padded(&mut out, day.day as u64, 2);
    assert(out@ =~= day_text(day));
    string_of(&out)
}

/// The seconds of a day.
pub const SECONDS_PER_DAY: i64 = 86_400;

/// The time `days` days before `now`, in seconds since 1970; it stops at
/// the earliest time that there is.
pub open spec fn days_before(now: i64, days: usize) -> i64 {
    if now - days * SECONDS_PER_DAY < i64::MIN {
        i64::MIN
    } else {
        (now - days * SECONDS_PER_DAY) as i64
    }
}

/// The time before which records are older than `days` days.
pub fn history_cutoff(now: i64, days: usize) -> (cutoff: i64)
    ensures
        cutoff == days_before(now, days),
{
    let span: i128 = days as i128;
    let day: i128 = 86_400;
    assert(span * day <= 0xffff_ffff_ffff_ffff * 86_400) by (nonlinear_arith)
        requires
            0 <= span <= 0xffff_ffff_ffff_ffff,
            day == 86_400,
    ;
    assert(span * day >= 0) by (nonlinear_arith)
        requires
            0 <= span,
            day == 86_400,
    ;
    let back: i128 = now as i128 - span * day;
    if back < i64::MIN as i128 {
        i64::MIN
    } else {
        back as i64
    }
}

/// The time before which records are pruned: none where nothing is
/// pruned, which a retention of 0 days stands for.
pub fn prune_cutoff(now: i64, retention_days: usize) -> (cutoff: Option<i64>)
    ensures
        cutoff == if retention_days == 0 {
            None
        } else {
            Some(days_before(now, retention_days))
        },
{
    if retention_days == 0 {
        None
    } else {
        Some(history_cutoff(now, retention_days))
    }
}

/// Every row is counted once: the days together hold as many dictations
/// as there are rows, where no count has stopped at the largest number.
pub proof fn lemma_each_day_counts_its_rows(rows: Seq<DatedRow>, day: Day)
    requires
        rows.len() < usize::MAX,
    ensures
        day_stats(rows, day).utterances <= rows.len(),
        day_stats(rows, day).utterances == rows.filter(|r: DatedRow| r.day == day).len(),
        all_stats(rows).utterances == rows.len(),
    decreases rows.len(),
{
    reveal(Seq::filter);
    if rows.len() > 0 {
        lemma_each_day_counts_its_rows(rows.drop_last(), day);
        assert(rows.drop_last().push(rows.last()) =~= rows);
    }
}

} // verus!
