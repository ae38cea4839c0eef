//! Per-day aggregation of active time and break outcomes, and trailing-week
//! summaries. Days are a sparse mapping from an integer day index (the
//! engine's bucket function) to counters; a day that was never recorded
//! counts as all zeroes. All counter arithmetic saturates.

use vstd::prelude::*;

use crate::timer::{BreakKind, BreakOutcome};

verus! {

/// The counters kept for one day.
#[derive(Clone, Copy, Debug, PartialEq, Eq, Structural)]
pub struct DailyAggregate {
    pub active_seconds: u64,
    pub micro_done: u32,
    pub rest_done: u32,
    pub daily_limit_hits: u32,
    pub skipped: u32,
}

/// The sums of the daily counters over a trailing seven-day window.
#[derive(Clone, Copy, Debug, PartialEq, Eq, Structural)]
pub struct WeeklySummary {
    pub total_active_seconds: u64,
    pub micro_done: u32,
    pub rest_done: u32,
    pub daily_limit_hits: u32,
    pub skipped: u32,
}

/// The all-zero day.
pub open spec fn zero_agg() -> DailyAggregate {
    DailyAggregate {
        active_seconds: 0u64,
        micro_done: 0u32,
        rest_done: 0u32,
        daily_limit_hits: 0u32,
        skipped: 0u32,
    }
}

/// The all-zero summary.
pub open spec fn zero_week() -> WeeklySummary {
    WeeklySummary {
        total_active_seconds: 0u64,
        micro_done: 0u32,
        rest_done: 0u32,
        daily_limit_hits: 0u32,
        skipped: 0u32,
    }
}

/// A summary with one more day's counters added in, saturating.
pub open spec fn combine(w: WeeklySummary, a: DailyAggregate) -> WeeklySummary {
    WeeklySummary {
        total_active_seconds: w.total_active_seconds.saturating_add(a.active_seconds),
        micro_done: w.micro_done.saturating_add(a.micro_done),
        rest_done: w.rest_done.saturating_add(a.rest_done),
        daily_limit_hits: w.daily_limit_hits.saturating_add(a.daily_limit_hits),
        skipped: w.skipped.saturating_add(a.skipped),
    }
}

/// A day's counters after recording one break outcome: completion bumps the
/// counter of the matching kind, a skip bumps the shared skip counter, and a
/// snooze is non-terminal and leaves the day untouched.
pub open spec fn applied_break(a: DailyAggregate, kind: BreakKind, outcome: BreakOutcome)
    -> DailyAggregate {
    match (kind, outcome) {
        (BreakKind::Micro, BreakOutcome::Completed) => DailyAggregate {
            micro_done: a.micro_done.saturating_add(1),
            ..a
        },
        (BreakKind::Rest, BreakOutcome::Completed) => DailyAggregate {
            rest_done: a.rest_done.saturating_add(1),
            ..a
        },
        (BreakKind::DailyLimit, BreakOutcome::Completed) => DailyAggregate {
            daily_limit_hits: a.daily_limit_hits.saturating_add(1),
            ..a
        },
        (_, BreakOutcome::Skipped) => DailyAggregate { skipped: a.skipped.saturating_add(1), ..a },
        (_, BreakOutcome::Snoozed) => a,
    }
}

/// The counters stored for `day` in an entry list: the first entry with a
/// matching key, or all zeroes where none matches.
spec fn lookup(s: Seq<(i64, DailyAggregate)>, day: int) -> DailyAggregate
    decreases s.len(),
{
    if s.len() == 0 {
        zero_agg()
    } else if s[0].0 == day {
        s[0].1
    } else {
        lookup(s.drop_first(), day)
    }
}

/// Sparse per-day aggregation keyed by the caller-supplied day index.
#[derive(Clone, Debug)]
pub struct AnalyticsStore {
    by_day: Vec<(i64, DailyAggregate)>,
}

impl Default for AnalyticsStore {
    /// The empty store: every day reads as all zeroes.
    fn default() -> (s: Self)
        ensures
            forall|d: int| s.day_agg(d) == zero_agg(),
    {
        Self { by_day: Vec::new() }
    }
}

impl AnalyticsStore {
    /// The counters recorded for `day`; all zeroes where nothing was.
    pub closed spec fn day_agg(&self, day: int) -> DailyAggregate {
        lookup(self.by_day@, day)
    }

    /// The sum of `count` consecutive days' counters starting at `first`.
    pub open spec fn sum_days(&self, first: int, count: nat) -> WeeklySummary
        decreases count,
    {
        if count == 0 {
            zero_week()
        } else {
            combine(self.sum_days(first, (count - 1) as nat), self.day_agg(first + count - 1))
        }
    }

    /// The summary of the inclusive seven-day window ending at `end`.
    pub open spec fn week_spec(&self, end: int) -> WeeklySummary {
        self.sum_days(end - 6, 7)
    }

    /// Add `seconds` of active time to `day`, saturating; no other day and
    /// no other counter changes.
    pub fn record_activity(&mut self, day_index: i64, seconds: u64)
        ensures
            final(self).day_agg(day_index as int) == (DailyAggregate {
                active_seconds: old(self).day_agg(day_index as int).active_seconds.saturating_add(
                    seconds,
                ),
                ..old(self).day_agg(day_index as int)
            }),
            forall|d: int| d != day_index ==> final(self).day_agg(d) == old(self).day_agg(d),
    {
        match self.find_day(day_index) {
            Some(i) => {
                let cur: (i64, DailyAggregate) = self.by_day[i];
                let updated = DailyAggregate {
                    active_seconds: cur.1.active_seconds.saturating_add(seconds),
                    ..cur.1
                };
                proof {
                    lemma_lookup_first_match(self.by_day@, day_index as int, i as int);
                    lemma_lookup_replace(self.by_day@, day_index as int, i as int, updated);
                }
                self.by_day[i] = (day_index, updated);
            },
            None => {
                let fresh = DailyAggregate {
                    active_seconds: seconds,
                    micro_done: 0,
                    rest_done: 0,
                    daily_limit_hits: 0,
                    skipped: 0,
                };
                proof {
                    lemma_lookup_absent(self.by_day@, day_index as int);
                    lemma_lookup_push(self.by_day@, day_index as int, (day_index, fresh));
                }
                self.by_day.push((day_index, fresh));
            },
        }
    }

    /// Record one break outcome on `day`; see `applied_break`. No other day
    /// changes.
    pub fn record_break(&mut self, day_index: i64, kind: BreakKind, outcome: BreakOutcome)
        ensures
            final(self).day_agg(day_index as int) == applied_break(
                old(self).day_agg(day_index as int),
                kind,
                outcome,
            ),
            forall|d: int| d != day_index ==> final(self).day_agg(d) == old(self).day_agg(d),
    {
        match self.find_day(day_index) {
            Some(i) => {
                let cur: (i64, DailyAggregate) = self.by_day[i];
                let updated = Self::apply_break(cur.1, kind, outcome);
                proof {
                    lemma_lookup_first_match(self.by_day@, day_index as int, i as int);
                    lemma_lookup_replace(self.by_day@, day_index as int, i as int, updated);
                }
                self.by_day[i] = (day_index, updated);
            },
            None => {
                let zero = DailyAggregate {
                    active_seconds: 0,
                    micro_done: 0,
                    rest_done: 0,
                    daily_limit_hits: 0,
                    skipped: 0,
                };
                let fresh = Self::apply_break(zero, kind, outcome);
                proof {
                    lemma_lookup_absent(self.by_day@, day_index as int);
                    lemma_lookup_push(self.by_day@, day_index as int, (day_index, fresh));
                }
                self.by_day.push((day_index, fresh));
            },
        }
    }

    /// Sum every counter over the inclusive window `[end - 6, end]`; absent
    /// days contribute zero.
    pub fn summarize_week_ending(&self, end_day_index: i64) -> (summary: WeeklySummary)
        ensures
            summary == self.week_spec(end_day_index as int),
    {
        let mut summary = WeeklySummary {
            total_active_seconds: 0,
            micro_done: 0,
            rest_done: 0,
            daily_limit_hits: 0,
            skipped: 0,
        };
        let mut k: u64 = 0;
        while k < 7
            invariant
                k <= 7,
                summary == self.sum_days(end_day_index - 6, k as nat),
            decreases 7 - k,
        {
            let back: i64 = 6 - k as i64;
            match end_day_index.checked_sub(back) {
                Some(day) => {
                    let agg = self.get_agg(day);
                    summary = Self::combine_with(summary, agg);
                },
                None => {
                    // The day lies below the representable range, so nothing
                    // was ever recorded for it and it contributes zero.
                    proof {
                        lemma_lookup_unrepresentable(
                            self.by_day@,
                            end_day_index - 6 + k,
                        );
                    }
                },
            }
            k = k + 1;
        }
        summary
    }

    /// The stored counters for one day, read without modification.
    fn get_agg(&self, day_index: i64) -> (a: DailyAggregate)
        ensures
            a == self.day_agg(day_index as int),
    {
        match self.find_day(day_index) {
            Some(i) => {
                proof {
                    lemma_lookup_first_match(self.by_day@, day_index as int, i as int);
                }
                self.by_day[i].1
            },
            None => {
                proof {
                    lemma_lookup_absent(self.by_day@, day_index as int);
                }
                DailyAggregate {
                    active_seconds: 0,
                    micro_done: 0,
                    rest_done: 0,
                    daily_limit_hits: 0,
                    skipped: 0,
                }
            },
        }
    }

    /// The index of the first entry for `day_index`, if one exists.
    fn find_day(&self, day_index: i64) -> (r: Option<usize>)
        ensures
            match r {
                Some(i) => i < self.by_day@.len() && self.by_day@[i as int].0 == day_index
                    && forall|j: int| 0 <= j < i ==> self.by_day@[j].0 != day_index,
                None => forall|j: int|
                    0 <= j < self.by_day@.len() ==> self.by_day@[j].0 != day_index,
            },
    {
        let mut i: usize = 0;
        while i < self.by_day.len()
            invariant
                i <= self.by_day@.len(),
                forall|j: int| 0 <= j < i ==> self.by_day@[j].0 != day_index,
            decreases self.by_day@.len() - i,
        {
            if self.by_day[i].0 == day_index {
                return Some(i);
            }
            i = i + 1;
        }
        None
    }

    /// One day's counters after one break outcome; see `applied_break`.
    fn apply_break(a: DailyAggregate, kind: BreakKind, outcome: BreakOutcome) -> (r:
        DailyAggregate)
        ensures
            r == applied_break(a, kind, outcome),
    {
        match (kind, outcome) {
            (BreakKind::Micro, BreakOutcome::Completed) => DailyAggregate {
                micro_done: a.micro_done.saturating_add(1),
                ..a
            },
            (BreakKind::Rest, BreakOutcome::Completed) => DailyAggregate {
                rest_done: a.rest_done.saturating_add(1),
                ..a
            },
            (BreakKind::DailyLimit, BreakOutcome::Completed) => DailyAggregate {
                daily_limit_hits: a.daily_limit_hits.saturating_add(1),
                ..a
            },
            (_, BreakOutcome::Skipped) => DailyAggregate {
                skipped: a.skipped.saturating_add(1),
                ..a
            },
            (_, BreakOutcome::Snoozed) => a,
        }
    }

    /// A summary with one more day's counters added in, saturating.
    fn combine_with(w: WeeklySummary, a: DailyAggregate) -> (r: WeeklySummary)
        ensures
            r == combine(w, a),
    {
        WeeklySummary {
            total_active_seconds: w.total_active_seconds.saturating_add(a.active_seconds),
            micro_done: w.micro_done.saturating_add(a.micro_done),
            rest_done: w.rest_done.saturating_add(a.rest_done),
            daily_limit_hits: w.daily_limit_hits.saturating_add(a.daily_limit_hits),
            skipped: w.skipped.saturating_add(a.skipped),
        }
    }
}

/// The first matching entry determines what `lookup` reads.
proof fn lemma_lookup_first_match(s: Seq<(i64, DailyAggregate)>, day: int, i: int)
    requires
        0 <= i < s.len(),
        s[i].0 == day,
        forall|j: int| 0 <= j < i ==> s[j].0 != day,
    ensures
        lookup(s, day) == s[i].1,
    decreases i,
{
    if i > 0 {
        lemma_lookup_first_match(s.drop_first(), day, i - 1);
    }
}

/// A day with no entry reads as all zeroes.
proof fn lemma_lookup_absent(s: Seq<(i64, DailyAggregate)>, day: int)
    requires
        forall|j: int| 0 <= j < s.len() ==> s[j].0 != day,
    ensures
        lookup(s, day) == zero_agg(),
    decreases s.len(),
{
    if s.len() > 0 {
        lemma_lookup_absent(s.drop_first(), day);
    }
}

/// A day outside the representable index range has no entry.
proof fn lemma_lookup_unrepresentable(s: Seq<(i64, DailyAggregate)>, day: int)
    requires
        day < i64::MIN || day > i64::MAX,
    ensures
        lookup(s, day) == zero_agg(),
    decreases s.len(),
{
    if s.len() > 0 {
        lemma_lookup_unrepresentable(s.drop_first(), day);
    }
}

/// Replacing the first entry of a day rewrites that day's counters and no
/// other day's.
proof fn lemma_lookup_replace(s: Seq<(i64, DailyAggregate)>, day: int, i: int, v: DailyAggregate)
    requires
        0 <= i < s.len(),
        s[i].0 == day,
        forall|j: int| 0 <= j < i ==> s[j].0 != day,
        i64::MIN <= day <= i64::MAX,
    ensures
        lookup(s.update(i, (day as i64, v)), day) == v,
        forall|d: int| d != day ==> lookup(s.update(i, (day as i64, v)), d) == lookup(s, d),
    decreases i,
{
    let t = s.update(i, (day as i64, v));
    if i == 0 {
        assert(t.drop_first() =~= s.drop_first());
    } else {
        lemma_lookup_replace(s.drop_first(), day, i - 1, v);
        assert(t.drop_first() =~= s.drop_first().update(i - 1, (day as i64, v)));
    }
    assert forall|d: int| d != day implies lookup(t, d) == lookup(s, d) by {
        if s[0].0 != d {
            assert(lookup(t, d) == lookup(t.drop_first(), d));
            assert(lookup(s, d) == lookup(s.drop_first(), d));
        }
    }
}

/// Appending an entry for a day that had none gives that day its counters
/// and changes no other day's.
proof fn lemma_lookup_push(s: Seq<(i64, DailyAggregate)>, day: int, p: (i64, DailyAggregate))
    requires
        forall|j: int| 0 <= j < s.len() ==> s[j].0 != day,
        p.0 == day,
    ensures
        lookup(s.push(p), day) == p.1,
        forall|d: int| d != day ==> lookup(s.push(p), d) == lookup(s, d),
    decreases s.len(),
{
    let t = s.push(p);
    if s.len() == 0 {
        assert(t.drop_first() =~= Seq::<(i64, DailyAggregate)>::empty());
    } else {
        lemma_lookup_push(s.drop_first(), day, p);
        assert(t.drop_first() =~= s.drop_first().push(p));
    }
    assert forall|d: int| d != day implies lookup(t, d) == lookup(s, d) by {
        if s.len() == 0 {
            assert(lookup(t, d) == lookup(t.drop_first(), d));
        } else if s[0].0 != d {
            assert(lookup(t, d) == lookup(t.drop_first(), d));
            assert(lookup(s, d) == lookup(s.drop_first(), d));
        }
    }
}

/// Two stores that agree on every day of a window have the same sums over
/// that window; the weekly summary reads nothing outside its seven days.
pub proof fn lemma_sum_days_window(s1: &AnalyticsStore, s2: &AnalyticsStore, first: int, count: nat)
    requires
        forall|d: int| first <= d < first + count ==> s1.day_agg(d) == s2.day_agg(d),
    ensures
        s1.sum_days(first, count) == s2.sum_days(first, count),
    decreases count,
{
    if count > 0 {
        lemma_sum_days_window(s1, s2, first, (count - 1) as nat);
    }
}

/// The weekly summary ending at `end` ignores every day outside
/// `[end - 6, end]`: stores that agree on those seven days summarize alike.
pub proof fn lemma_week_window(s1: &AnalyticsStore, s2: &AnalyticsStore, end: int)
    requires
        forall|d: int| end - 6 <= d <= end ==> s1.day_agg(d) == s2.day_agg(d),
    ensures
        s1.week_spec(end) == s2.week_spec(end),
{
    lemma_sum_days_window(s1, s2, end - 6, 7);
}

} // verus!
