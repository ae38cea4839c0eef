//! The break timer engine: three independently timed triggers (micro break,
//! rest break, daily limit) driven by accumulated active seconds, with
//! snoozing, an in-progress break countdown, daily rollover detection and a
//! discharge cascade on completion.
//!
//! Every operation is a pure state transition `(state, input) -> (state,
//! events)`; the corresponding transition is written down as a spec function
//! and each exec method is proved to implement it exactly.

use vstd::prelude::*;

use crate::config::{BlockLevel, Settings};

verus! {

/// The closed set of break kinds, in fixed priority order:
/// `Micro` before `Rest` before `DailyLimit`.
#[derive(Clone, Copy, Debug, PartialEq, Eq, Structural)]
pub enum BreakKind {
    Micro,
    Rest,
    DailyLimit,
}

/// How a presented break ended, as reported by the host.
#[derive(Clone, Copy, Debug, PartialEq, Eq, Structural)]
pub enum BreakOutcome {
    Completed,
    Snoozed,
    Skipped,
}

/// An event returned by an engine transition for the host to act on.
#[derive(Clone, Debug, PartialEq, Eq, Structural)]
pub enum EngineEvent {
    BreakDue(BreakKind),
    BreakStarted(BreakKind),
    BreakCompleted(BreakKind),
    BreakSnoozed(BreakKind, u64),
    DailyReset,
}

/// The break currently in progress; exists only while a break is active.
#[derive(Clone, Copy, Debug, PartialEq, Eq, Structural)]
pub struct OngoingBreak {
    pub kind: BreakKind,
    pub remaining_seconds: u64,
}

/// The engine state: one activity counter and one optional snooze deadline
/// per kind, the optional break in progress, and the day bucket at which the
/// daily counter was last reset.
#[derive(Clone, Debug)]
pub struct TimerEngine {
    pub settings: Settings,
    pub micro_active: u64,
    pub rest_active: u64,
    pub daily_active: u64,
    pub micro_snooze_until: Option<u64>,
    pub rest_snooze_until: Option<u64>,
    pub daily_snooze_until: Option<u64>,
    pub active_break: Option<OngoingBreak>,
    pub last_reset_bucket: i64,
}

/// Seconds in one day.
pub const DAY_SECONDS: u64 = 86400;

/// Fixed duration of the forced pause when the daily limit is reached.
pub const DAILY_LIMIT_BREAK_SECONDS: u64 = 60;

/// The integer day index of `now`: whole days since the epoch shifted by the
/// configured reset offset, rounded toward minus infinity. Instants before
/// the first reset offset after the epoch fall into negative buckets, so the
/// boundary at the offset itself already counts as a rollover.
pub open spec fn spec_daily_bucket(now: int, offset: int) -> int {
    (now - offset) / (DAY_SECONDS as int)
}

/// Seconds from `now` to the first instant with a larger day bucket.
pub open spec fn spec_until_next_reset(now: int, offset: int) -> int {
    (spec_daily_bucket(now, offset) + 1) * (DAY_SECONDS as int) + offset - now
}

/// A kind is snoozed exactly while `now` lies before its snooze deadline.
pub open spec fn spec_is_snoozed(until: Option<u64>, now: u64) -> bool {
    until matches Some(u) && now < u
}

/// Seconds of snooze left at `now`: zero once the deadline has passed or
/// when no snooze is set.
pub open spec fn spec_snooze_remaining(until: Option<u64>, now: u64) -> u64 {
    match until {
        Some(u) => if now < u {
            (u - now) as u64
        } else {
            0u64
        },
        None => 0u64,
    }
}

/// The larger of two counts.
pub open spec fn max64(a: u64, b: u64) -> u64 {
    if a >= b {
        a
    } else {
        b
    }
}

/// Keep `best` unless the new candidate's countdown is strictly smaller;
/// candidates are offered in priority order, so ties keep the earlier kind.
pub open spec fn spec_prefer(best: Option<(BreakKind, u64)>, cand: (BreakKind, u64)) -> Option<
    (BreakKind, u64),
> {
    match best {
        None => Some(cand),
        Some(b) => if cand.1 < b.1 {
            Some(cand)
        } else {
            Some(b)
        },
    }
}

impl TimerEngine {
    /// The reset offset the engine's bucket function runs under.
    pub open spec fn spec_offset(&self) -> int {
        self.settings.daily_limit.spec_reset_offset()
    }

    /// Whether calling `on_activity` at `now` crosses the reset boundary.
    pub open spec fn crosses_reset(&self, now: u64) -> bool {
        spec_daily_bucket(now as int, self.spec_offset()) != self.last_reset_bucket as int
    }

    /// The state after the daily rollover: the daily counter and its snooze
    /// are cleared and the stored bucket catches up; everything else stays.
    pub open spec fn after_reset(&self, now: u64) -> TimerEngine {
        TimerEngine {
            daily_active: 0u64,
            daily_snooze_until: None,
            last_reset_bucket: spec_daily_bucket(now as int, self.spec_offset()) as i64,
            ..*self
        }
    }

    /// The state with `secs` of activity added to all three counters,
    /// saturating at the top of the range.
    pub open spec fn advanced(&self, secs: u64) -> TimerEngine {
        TimerEngine {
            micro_active: self.micro_active.saturating_add(secs),
            rest_active: self.rest_active.saturating_add(secs),
            daily_active: self.daily_active.saturating_add(secs),
            ..*self
        }
    }

    /// The micro break trigger condition holds and is not snoozed.
    pub open spec fn micro_due(&self, now: u64) -> bool {
        &&& self.settings.micro.enabled
        &&& self.micro_active >= self.settings.micro.interval_seconds
        &&& !spec_is_snoozed(self.micro_snooze_until, now)
    }

    /// The rest break trigger condition holds and is not snoozed.
    pub open spec fn rest_due(&self, now: u64) -> bool {
        &&& self.settings.rest.enabled
        &&& self.rest_active >= self.settings.rest.interval_seconds
        &&& !spec_is_snoozed(self.rest_snooze_until, now)
    }

    /// The daily limit trigger condition holds and is not snoozed.
    pub open spec fn daily_due(&self, now: u64) -> bool {
        &&& self.settings.daily_limit.enabled
        &&& self.daily_active >= self.settings.daily_limit.limit_seconds
        &&& !spec_is_snoozed(self.daily_snooze_until, now)
    }

    /// The first due kind in priority order, if any.
    pub open spec fn spec_next_due(&self, now: u64) -> Option<BreakKind> {
        if self.micro_due(now) {
            Some(BreakKind::Micro)
        } else if self.rest_due(now) {
            Some(BreakKind::Rest)
        } else if self.daily_due(now) {
            Some(BreakKind::DailyLimit)
        } else {
            None
        }
    }

    /// How long a break of `kind` runs: micro and rest durations come from
    /// the settings, the daily limit pause is fixed.
    pub open spec fn duration_for(&self, kind: BreakKind) -> u64 {
        match kind {
            BreakKind::Micro => self.settings.micro.duration_seconds,
            BreakKind::Rest => self.settings.rest.duration_seconds,
            BreakKind::DailyLimit => DAILY_LIMIT_BREAK_SECONDS,
        }
    }

    /// The state with a fresh break of `kind` in progress.
    pub open spec fn with_started(&self, kind: BreakKind) -> TimerEngine {
        TimerEngine {
            active_break: Some(
                OngoingBreak { kind, remaining_seconds: self.duration_for(kind) },
            ),
            ..*self
        }
    }

    /// The discharge cascade on completing a break: micro clears only the
    /// micro counter, rest also clears micro, the daily limit clears all
    /// three.
    pub open spec fn discharged(&self, kind: BreakKind) -> TimerEngine {
        match kind {
            BreakKind::Micro => TimerEngine { micro_active: 0u64, ..*self },
            BreakKind::Rest => TimerEngine { micro_active: 0u64, rest_active: 0u64, ..*self },
            BreakKind::DailyLimit => TimerEngine {
                micro_active: 0u64,
                rest_active: 0u64,
                daily_active: 0u64,
                ..*self
            },
        }
    }

    /// The snooze deadline set by snoozing `kind` at `now`.
    pub open spec fn spec_snooze_until(&self, kind: BreakKind, now: u64) -> u64 {
        match kind {
            BreakKind::Micro => now.saturating_add(self.settings.micro.snooze_seconds),
            BreakKind::Rest => now.saturating_add(self.settings.rest.snooze_seconds),
            BreakKind::DailyLimit => now.saturating_add(self.settings.daily_limit.snooze_seconds),
        }
    }

    /// The state after snoozing `kind` at `now`.
    pub open spec fn spec_snooze(&self, kind: BreakKind, now: u64) -> TimerEngine {
        match kind {
            BreakKind::Micro => TimerEngine {
                micro_snooze_until: Some(self.spec_snooze_until(kind, now)),
                ..*self
            },
            BreakKind::Rest => TimerEngine {
                rest_snooze_until: Some(self.spec_snooze_until(kind, now)),
                ..*self
            },
            BreakKind::DailyLimit => TimerEngine {
                daily_snooze_until: Some(self.spec_snooze_until(kind, now)),
                ..*self
            },
        }
    }

    /// The `start_break` transition: a no-op while a break is active,
    /// otherwise it creates the ongoing break and reports it started.
    pub open spec fn spec_start_break(&self, kind: BreakKind) -> (TimerEngine, Seq<EngineEvent>) {
        if self.active_break is Some {
            (*self, Seq::<EngineEvent>::empty())
        } else {
            (self.with_started(kind), seq![EngineEvent::BreakStarted(kind)])
        }
    }

    /// The `tick_break` transition: a no-op with no break in progress;
    /// completion applies the discharge cascade, otherwise the countdown
    /// shrinks by `elapsed`.
    pub open spec fn spec_tick_break(&self, elapsed: u64) -> (TimerEngine, Seq<EngineEvent>) {
        match self.active_break {
            None => (*self, Seq::<EngineEvent>::empty()),
            Some(ab) => if elapsed >= ab.remaining_seconds {
                (
                    TimerEngine { active_break: None, ..*self }.discharged(ab.kind),
                    seq![EngineEvent::BreakCompleted(ab.kind)],
                )
            } else {
                (
                    TimerEngine {
                        active_break: Some(
                            OngoingBreak {
                                kind: ab.kind,
                                remaining_seconds: (ab.remaining_seconds - elapsed) as u64,
                            },
                        ),
                        ..*self
                    },
                    Seq::<EngineEvent>::empty(),
                )
            },
        }
    }

    /// The `on_activity` transition: first the possible daily rollover, then
    /// — only when there is activity and no break is running — the counters
    /// advance and the first due kind is reported; under strict enforcement
    /// the due break starts immediately.
    pub open spec fn spec_on_activity(&self, secs: u64, now: u64) -> (TimerEngine, Seq<
        EngineEvent,
    >) {
        let reset = self.crosses_reset(now);
        let e1 = if reset {
            self.after_reset(now)
        } else {
            *self
        };
        let base = if reset {
            seq![EngineEvent::DailyReset]
        } else {
            Seq::<EngineEvent>::empty()
        };
        if secs == 0 || e1.active_break is Some {
            (e1, base)
        } else {
            let e2 = e1.advanced(secs);
            match e2.spec_next_due(now) {
                None => (e2, base),
                Some(kind) => if e2.settings.block_level is Strict {
                    (
                        e2.with_started(kind),
                        base + seq![
                            EngineEvent::BreakDue(kind),
                            EngineEvent::BreakStarted(kind),
                        ],
                    )
                } else {
                    (e2, base + seq![EngineEvent::BreakDue(kind)])
                },
            }
        }
    }

    /// The countdown until the micro break would become due, were activity
    /// continuous: the larger of the interval remainder and the snooze left.
    pub open spec fn micro_eta(&self, now: u64) -> u64 {
        max64(
            self.settings.micro.interval_seconds.saturating_sub(self.micro_active),
            spec_snooze_remaining(self.micro_snooze_until, now),
        )
    }

    /// As `micro_eta`, for the rest break.
    pub open spec fn rest_eta(&self, now: u64) -> u64 {
        max64(
            self.settings.rest.interval_seconds.saturating_sub(self.rest_active),
            spec_snooze_remaining(self.rest_snooze_until, now),
        )
    }

    /// As `micro_eta`, for the daily limit.
    pub open spec fn daily_eta(&self, now: u64) -> u64 {
        max64(
            self.settings.daily_limit.limit_seconds.saturating_sub(self.daily_active),
            spec_snooze_remaining(self.daily_snooze_until, now),
        )
    }

    /// The `next_break_eta` answer: none while a break is active; otherwise
    /// the enabled kind with the smallest countdown, ties broken in priority
    /// order, where the daily limit competes only if it would trigger before
    /// the day rolls over.
    pub open spec fn spec_eta(&self, now: u64) -> Option<(BreakKind, u64)> {
        if self.active_break is Some {
            None
        } else {
            let b1: Option<(BreakKind, u64)> = if self.settings.micro.enabled {
                Some((BreakKind::Micro, self.micro_eta(now)))
            } else {
                None
            };
            let b2 = if self.settings.rest.enabled {
                spec_prefer(b1, (BreakKind::Rest, self.rest_eta(now)))
            } else {
                b1
            };
            if self.settings.daily_limit.enabled && self.daily_eta(now)
                < spec_until_next_reset(now as int, self.spec_offset()) {
                spec_prefer(b2, (BreakKind::DailyLimit, self.daily_eta(now)))
            } else {
                b2
            }
        }
    }

    /// The freshly constructed engine: zero counters, nothing snoozed, no
    /// break in progress, and the day bucket of `now`.
    pub open spec fn spec_new(settings: Settings, now: u64) -> TimerEngine {
        TimerEngine {
            last_reset_bucket: spec_daily_bucket(
                now as int,
                settings.daily_limit.spec_reset_offset(),
            ) as i64,
            settings,
            micro_active: 0u64,
            rest_active: 0u64,
            daily_active: 0u64,
            micro_snooze_until: None,
            rest_snooze_until: None,
            daily_snooze_until: None,
            active_break: None,
        }
    }
}

/// Floor division of a negative number, computed from its positive
/// magnitude: dividing `-magnitude` by a positive divisor rounds toward
/// minus infinity.
proof fn lemma_neg_div(magnitude: int, divisor: int)
    requires
        magnitude >= 1,
        divisor >= 1,
    ensures
        (0 - magnitude) / divisor == -1 - (magnitude - 1) / divisor,
{
    let q = (magnitude - 1) / divisor;
    let m = (magnitude - 1) % divisor;
    vstd::arithmetic::div_mod::lemma_fundamental_div_mod(magnitude - 1, divisor);
    vstd::arithmetic::div_mod::lemma_mod_pos_bound(magnitude - 1, divisor);
    assert((-1 - q) * divisor + (divisor - 1 - m) == 0 - magnitude) by (nonlinear_arith)
        requires
            magnitude - 1 == divisor * q + m,
    ;
    vstd::arithmetic::div_mod::lemma_fundamental_div_mod_converse(
        0 - magnitude,
        divisor,
        -1 - q,
        divisor - 1 - m,
    );
}

/// The day bucket of any representable instant under any representable
/// offset fits comfortably in `i64`.
proof fn lemma_bucket_range(now: int, offset: int)
    requires
        0 <= now <= u64::MAX,
        0 <= offset <= u64::MAX,
    ensures
        -(u64::MAX as int) / (DAY_SECONDS as int) - 1 <= spec_daily_bucket(now, offset) <= (
        u64::MAX as int) / (DAY_SECONDS as int),
{
    if now >= offset {
        vstd::arithmetic::div_mod::lemma_div_pos_is_pos(now - offset, DAY_SECONDS as int);
        vstd::arithmetic::div_mod::lemma_div_is_ordered(
            now - offset,
            u64::MAX as int,
            DAY_SECONDS as int,
        );
    } else {
        lemma_neg_div(offset - now, DAY_SECONDS as int);
        vstd::arithmetic::div_mod::lemma_div_pos_is_pos(offset - now - 1, DAY_SECONDS as int);
        vstd::arithmetic::div_mod::lemma_div_is_ordered(
            offset - now - 1,
            u64::MAX as int,
            DAY_SECONDS as int,
        );
    }
}

impl TimerEngine {
    /// An engine starting a monitoring session at `now_local_unix` under
    /// `settings`.
    pub fn new(settings: Settings, now_local_unix: u64) -> (e: Self)
        ensures
            e == TimerEngine::spec_new(settings, now_local_unix),
    {
        let offset = settings.daily_limit.reset_offset_seconds();
        let bucket = Self::daily_bucket(now_local_unix, offset);
        Self {
            settings,
            micro_active: 0,
            rest_active: 0,
            daily_active: 0,
            micro_snooze_until: None,
            rest_snooze_until: None,
            daily_snooze_until: None,
            active_break: None,
            last_reset_bucket: bucket,
        }
    }

    /// The settings the engine currently runs under.
    pub fn settings(&self) -> (s: &Settings)
        ensures
            *s == self.settings,
    {
        &self.settings
    }

    /// Mutable access to the settings; a change takes effect from the next
    /// evaluation and touches nothing else in the engine.
    pub fn settings_mut(&mut self) -> (s: &mut Settings)
        ensures
            *s == old(self).settings,
            *final(self) == (TimerEngine { settings: *final(s), ..*old(self) }),
    {
        &mut self.settings
    }

    /// The kind and remaining seconds of the break in progress, if any.
    pub fn active_break_info(&self) -> (r: Option<(BreakKind, u64)>)
        ensures
            r == match self.active_break {
                Some(ab) => Some((ab.kind, ab.remaining_seconds)),
                None => None::<(BreakKind, u64)>,
            },
    {
        match &self.active_break {
            Some(active) => Some((active.kind, active.remaining_seconds)),
            None => None,
        }
    }

    /// Which break comes next and in how many seconds; see `spec_eta`.
    pub fn next_break_eta(&self, now_local_unix: u64) -> (r: Option<(BreakKind, u64)>)
        ensures
            r == self.spec_eta(now_local_unix),
    {
        if self.active_break.is_some() {
            return None;
        }
        let mut best: Option<(BreakKind, u64)> = None;

        if self.settings.micro.enabled {
            let countdown = Self::max_of(
                self.settings.micro.interval_seconds.saturating_sub(self.micro_active),
                self.snooze_remaining(self.micro_snooze_until, now_local_unix),
            );
            best = Some((BreakKind::Micro, countdown));
        }

        if self.settings.rest.enabled {
            let countdown = Self::max_of(
                self.settings.rest.interval_seconds.saturating_sub(self.rest_active),
                self.snooze_remaining(self.rest_snooze_until, now_local_unix),
            );
            best = Self::prefer(best, (BreakKind::Rest, countdown));
        }

        if self.settings.daily_limit.enabled {
            let countdown = Self::max_of(
                self.settings.daily_limit.limit_seconds.saturating_sub(self.daily_active),
                self.snooze_remaining(self.daily_snooze_until, now_local_unix),
            );
            let until_reset = self.seconds_until_next_reset(
                now_local_unix,
                self.settings.daily_limit.reset_offset_seconds(),
            );
            if countdown < until_reset {
                best = Self::prefer(best, (BreakKind::DailyLimit, countdown));
            }
        }

        best
    }

    /// One activity sample; see `spec_on_activity`.
    pub fn on_activity(&mut self, active_seconds: u64, now_local_unix: u64) -> (events: Vec<
        EngineEvent,
    >)
        ensures
            *final(self) == old(self).spec_on_activity(active_seconds, now_local_unix).0,
            events@ == old(self).spec_on_activity(active_seconds, now_local_unix).1,
    {
        let mut events: Vec<EngineEvent> = Vec::new();
        if self.maybe_daily_reset(now_local_unix) {
            events.push(EngineEvent::DailyReset);
        }

        if active_seconds == 0 || self.active_break.is_some() {
            return events;
        }

        self.micro_active = self.micro_active.saturating_add(active_seconds);
        self.rest_active = self.rest_active.saturating_add(active_seconds);
        self.daily_active = self.daily_active.saturating_add(active_seconds);

        if let Some(kind) = self.next_due(now_local_unix) {
            events.push(EngineEvent::BreakDue(kind));
            if matches!(self.settings.block_level, BlockLevel::Strict) {
                let mut started = self.start_break(kind);
                events.append(&mut started);
            }
        }

        events
    }

    /// Begin a break of `kind` now; see `spec_start_break`.
    pub fn start_break(&mut self, kind: BreakKind) -> (events: Vec<EngineEvent>)
        ensures
            *final(self) == old(self).spec_start_break(kind).0,
            events@ == old(self).spec_start_break(kind).1,
    {
        if self.active_break.is_some() {
            return Vec::new();
        }
        let duration = match kind {
            BreakKind::Micro => self.settings.micro.duration_seconds,
            BreakKind::Rest => self.settings.rest.duration_seconds,
            BreakKind::DailyLimit => DAILY_LIMIT_BREAK_SECONDS,
        };
        self.active_break = Some(OngoingBreak { kind, remaining_seconds: duration });
        vec![EngineEvent::BreakStarted(kind)]
    }

    /// Advance the countdown of the break in progress; see `spec_tick_break`.
    pub fn tick_break(&mut self, elapsed_seconds: u64) -> (events: Vec<EngineEvent>)
        ensures
            *final(self) == old(self).spec_tick_break(elapsed_seconds).0,
            events@ == old(self).spec_tick_break(elapsed_seconds).1,
    {
        let mut events: Vec<EngineEvent> = Vec::new();
        let (kind, remaining) = match &self.active_break {
            None => {
                return events;
            },
            Some(active) => (active.kind, active.remaining_seconds),
        };

        if elapsed_seconds >= remaining {
            self.active_break = None;
            self.complete_break(kind);
            events.push(EngineEvent::BreakCompleted(kind));
        } else {
            self.active_break = Some(
                OngoingBreak { kind, remaining_seconds: remaining - elapsed_seconds },
            );
        }

        events
    }

    /// Suppress `kind` until `now + snooze_seconds[kind]`, unconditionally;
    /// see `spec_snooze`. Never touches a break already in progress.
    pub fn snooze(&mut self, kind: BreakKind, now_local_unix: u64) -> (event: Option<EngineEvent>)
        ensures
            *final(self) == old(self).spec_snooze(kind, now_local_unix),
            event == Some(
                EngineEvent::BreakSnoozed(
                    kind,
                    old(self).spec_snooze_until(kind, now_local_unix),
                ),
            ),
    {
        let until = match kind {
            BreakKind::Micro => now_local_unix.saturating_add(self.settings.micro.snooze_seconds),
            BreakKind::Rest => now_local_unix.saturating_add(self.settings.rest.snooze_seconds),
            BreakKind::DailyLimit => now_local_unix.saturating_add(
                self.settings.daily_limit.snooze_seconds,
            ),
        };

        match kind {
            BreakKind::Micro => self.micro_snooze_until = Some(until),
            BreakKind::Rest => self.rest_snooze_until = Some(until),
            BreakKind::DailyLimit => self.daily_snooze_until = Some(until),
        }

        Some(EngineEvent::BreakSnoozed(kind, until))
    }

    /// The first due kind in priority order; see `spec_next_due`.
    fn next_due(&self, now_local_unix: u64) -> (r: Option<BreakKind>)
        ensures
            r == self.spec_next_due(now_local_unix),
    {
        if self.settings.micro.enabled && self.micro_active >= self.settings.micro.interval_seconds
            && !Self::is_snoozed(self.micro_snooze_until, now_local_unix) {
            return Some(BreakKind::Micro);
        }

        if self.settings.rest.enabled && self.rest_active >= self.settings.rest.interval_seconds
            && !Self::is_snoozed(self.rest_snooze_until, now_local_unix) {
            return Some(BreakKind::Rest);
        }

        if self.settings.daily_limit.enabled && self.daily_active
            >= self.settings.daily_limit.limit_seconds && !Self::is_snoozed(
            self.daily_snooze_until,
            now_local_unix,
        ) {
            return Some(BreakKind::DailyLimit);
        }

        None
    }

    /// The larger of two counts.
    fn max_of(a: u64, b: u64) -> (r: u64)
        ensures
            r == max64(a, b),
    {
        if a >= b {
            a
        } else {
            b
        }
    }

    /// Keep `best` unless the candidate's countdown is strictly smaller.
    fn prefer(best: Option<(BreakKind, u64)>, cand: (BreakKind, u64)) -> (r: Option<
        (BreakKind, u64),
    >)
        ensures
            r == spec_prefer(best, cand),
    {
        match best {
            None => Some(cand),
            Some(b) => if cand.1 < b.1 {
                Some(cand)
            } else {
                Some(b)
            },
        }
    }

    /// Seconds of snooze left at `now`; see `spec_snooze_remaining`.
    fn snooze_remaining(&self, until: Option<u64>, now_local_unix: u64) -> (r: u64)
        ensures
            r == spec_snooze_remaining(until, now_local_unix),
    {
        match until {
            Some(value) => value.saturating_sub(now_local_unix),
            None => 0,
        }
    }

    /// Apply the discharge cascade for a completed break of `kind`.
    fn complete_break(&mut self, kind: BreakKind)
        ensures
            *final(self) == old(self).discharged(kind),
    {
        match kind {
            BreakKind::Micro => self.micro_active = 0,
            BreakKind::Rest => {
                self.rest_active = 0;
                self.micro_active = 0;
            },
            BreakKind::DailyLimit => {
                self.daily_active = 0;
                self.rest_active = 0;
                self.micro_active = 0;
            },
        }
    }

    /// Whether a snooze deadline is still in the future at `now`.
    fn is_snoozed(until: Option<u64>, now_local_unix: u64) -> (r: bool)
        ensures
            r == spec_is_snoozed(until, now_local_unix),
    {
        match until {
            Some(value) => now_local_unix < value,
            None => false,
        }
    }

    /// Detect and apply the daily rollover at `now`.
    fn maybe_daily_reset(&mut self, now_local_unix: u64) -> (r: bool)
        ensures
            r == old(self).crosses_reset(now_local_unix),
            *final(self) == if old(self).crosses_reset(now_local_unix) {
                old(self).after_reset(now_local_unix)
            } else {
                *old(self)
            },
    {
        let offset = self.settings.daily_limit.reset_offset_seconds();
        let bucket = Self::daily_bucket(now_local_unix, offset);
        if bucket != self.last_reset_bucket {
            self.last_reset_bucket = bucket;
            self.daily_active = 0;
            self.daily_snooze_until = None;
            true
        } else {
            false
        }
    }

    /// The integer day index of `now` under the given reset offset.
    fn daily_bucket(now_local_unix: u64, reset_offset_seconds: u64) -> (b: i64)
        ensures
            b as int == spec_daily_bucket(now_local_unix as int, reset_offset_seconds as int),
    {
        proof {
            lemma_bucket_range(now_local_unix as int, reset_offset_seconds as int);
        }
        if now_local_unix >= reset_offset_seconds {
            let days: u64 = (now_local_unix - reset_offset_seconds) / DAY_SECONDS;
            days as i64
        } else {
            let behind: u64 = reset_offset_seconds - now_local_unix;
            let whole_days_behind: u64 = (behind - 1) / DAY_SECONDS;
            proof {
                lemma_neg_div(behind as int, DAY_SECONDS as int);
            }
            -1 - (whole_days_behind as i64)
        }
    }

    /// Seconds from `now` to the first instant in a later day bucket.
    fn seconds_until_next_reset(&self, now_local_unix: u64, reset_offset_seconds: u64) -> (r: u64)
        ensures
            r as int == spec_until_next_reset(now_local_unix as int, reset_offset_seconds as int),
    {
        if now_local_unix >= reset_offset_seconds {
            let into_day: u64 = (now_local_unix - reset_offset_seconds) % DAY_SECONDS;
            proof {
                vstd::arithmetic::div_mod::lemma_fundamental_div_mod(
                    now_local_unix - reset_offset_seconds,
                    DAY_SECONDS as int,
                );
            }
            DAY_SECONDS - into_day
        } else {
            let behind: u64 = reset_offset_seconds - now_local_unix;
            let whole_days_behind: u64 = (behind - 1) / DAY_SECONDS;
            proof {
                lemma_neg_div(behind as int, DAY_SECONDS as int);
                vstd::arithmetic::div_mod::lemma_fundamental_div_mod(
                    behind as int - 1,
                    DAY_SECONDS as int,
                );
            }
            behind - whole_days_behind * DAY_SECONDS
        }
    }
}

/// A sample of zero active seconds advances no counter and emits nothing but
/// the daily reset where one is crossed; the reset zeroes the daily counter.
pub proof fn lemma_zero_activity_is_quiet(e: TimerEngine, now: u64)
    ensures
        e.spec_on_activity(0, now).0.micro_active == e.micro_active,
        e.spec_on_activity(0, now).0.rest_active == e.rest_active,
        e.spec_on_activity(0, now).0.daily_active == if e.crosses_reset(now) {
            0u64
        } else {
            e.daily_active
        },
        e.spec_on_activity(0, now).1 == if e.crosses_reset(now) {
            seq![EngineEvent::DailyReset]
        } else {
            Seq::<EngineEvent>::empty()
        },
{
}

/// Under strict enforcement, every `BreakDue` event of an activity sample is
/// followed immediately by `BreakStarted` of the same kind.
pub proof fn lemma_strict_due_autostarts(e: TimerEngine, secs: u64, now: u64)
    requires
        e.settings.block_level is Strict,
    ensures
        ({
            let evs = e.spec_on_activity(secs, now).1;
            forall|i: int|
                0 <= i < evs.len() ==> ((#[trigger] evs[i]) matches EngineEvent::BreakDue(kind)
                    ==> i + 1 < evs.len() && evs[i + 1] == EngineEvent::BreakStarted(kind))
        }),
{
}

/// Crossing the reset boundary yields exactly one `DailyReset`, in front;
/// without a crossing none is emitted. The rollover zeroes only the daily
/// counter: micro and rest see nothing but the ordinary advance.
pub proof fn lemma_daily_reset_behaviour(e: TimerEngine, secs: u64, now: u64)
    ensures
        e.crosses_reset(now) ==> {
            let advanced = secs != 0 && e.active_break is None;
            let f = e.spec_on_activity(secs, now).0;
            let evs = e.spec_on_activity(secs, now).1;
            &&& evs.len() >= 1
            &&& evs[0] == EngineEvent::DailyReset
            &&& forall|i: int| 1 <= i < evs.len() ==> evs[i] != EngineEvent::DailyReset
            &&& f.micro_active == if advanced {
                e.micro_active.saturating_add(secs)
            } else {
                e.micro_active
            }
            &&& f.rest_active == if advanced {
                e.rest_active.saturating_add(secs)
            } else {
                e.rest_active
            }
            &&& f.daily_active == if advanced {
                secs
            } else {
                0u64
            }
        },
        !e.crosses_reset(now) ==> forall|i: int|
            0 <= i < e.spec_on_activity(secs, now).1.len() ==> e.spec_on_activity(secs, now).1[i]
                != EngineEvent::DailyReset,
{
}

/// Completing a rest break discharges the micro counter along with the rest
/// counter; completing the daily limit discharges all three.
pub proof fn lemma_discharge_cascade(e: TimerEngine, elapsed: u64)
    requires
        e.active_break matches Some(ab) && elapsed >= ab.remaining_seconds,
    ensures
        e.spec_tick_break(elapsed).0.micro_active == 0,
        e.active_break matches Some(ab) && ab.kind is Rest ==> e.spec_tick_break(
            elapsed,
        ).0.rest_active == 0,
        e.active_break matches Some(ab) && ab.kind is DailyLimit ==> e.spec_tick_break(
            elapsed,
        ).0.rest_active == 0 && e.spec_tick_break(elapsed).0.daily_active == 0,
{
}

/// While a break is active there is no next-break estimate.
pub proof fn lemma_eta_none_while_active(e: TimerEngine, now: u64)
    requires
        e.active_break is Some,
    ensures
        e.spec_eta(now) is None,
{
}

/// With no intervening state change the estimated countdown never grows as
/// time passes, as long as the daily-limit candidate is not pushed out of
/// the running by the approaching reset boundary (where it is, the estimate
/// may jump to a farther kind).
pub proof fn lemma_eta_monotone(e: TimerEngine, t1: u64, t2: u64)
    requires
        t1 <= t2,
        e.active_break is None,
        e.settings.daily_limit.enabled ==> e.daily_eta(t2) < spec_until_next_reset(
            t2 as int,
            e.spec_offset(),
        ),
    ensures
        e.spec_eta(t1) matches Some(p1) ==> e.spec_eta(t2) matches Some(p2) && p2.1 <= p1.1,
{
}

} // verus!
