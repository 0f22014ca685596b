//! Alert engine: severities, the per-rule state machine (hysteresis between
//! a trigger and a clear condition, a minimum duration before firing, a
//! cooldown between notifications) and the aggregated counters shown on the
//! dashboard. Times are monotonic milliseconds.
use vstd::prelude::*;

verus! {

/// Severity of an alert.
#[derive(Debug, Clone, Copy, PartialEq, Eq, Structural)]
pub enum Severity {
    Warning,
    Critical,
}

pub open spec fn severity_name(s: Severity) -> Seq<char> {
    match s {
        Severity::Warning => "warning"@,
        Severity::Critical => "critical"@,
    }
}

impl Severity {
    /// Name stored with the events (`warning`, `critical`).
    pub fn as_str(&self) -> (r: &'static str)
        ensures
            r@ == severity_name(*self),
    {
        match self {
            Severity::Warning => "warning",
            Severity::Critical => "critical",
        }
    }
}

/// Counters aggregated over the stored alert events.
#[derive(Debug, Clone, Copy, PartialEq, Eq)]
pub struct AlertStats {
    pub total: i64,
    pub triggered: i64,
    pub cleared: i64,
    pub critical: i64,
    pub warning: i64,
    pub unacknowledged: i64,
}

/// State of one rule for one BMS.
#[derive(Debug, Clone, Copy, PartialEq, Eq, Structural)]
pub struct RuleState {
    /// The rule has fired and not cleared since.
    pub active: bool,
    /// Last notification sent for the rule.
    pub last_notified: Option<u64>,
    /// Since when the trigger condition has held, while waiting for the
    /// minimum duration.
    pub pending_since: Option<u64>,
}

impl Default for RuleState {
    fn default() -> (s: Self)
        ensures
            s == (RuleState { active: false, last_notified: None, pending_since: None }),
    {
        RuleState { active: false, last_notified: None, pending_since: None }
    }
}

/// Timing of a rule.
#[derive(Debug, Clone, Copy, PartialEq, Eq, Structural)]
pub struct RuleTiming {
    /// Least time between two notifications of the rule.
    pub cooldown_ms: u64,
    /// How long the trigger condition must hold before the rule fires.
    pub min_duration_ms: Option<u64>,
}

/// What an evaluation of a rule reports.
#[derive(Debug, Clone, Copy, PartialEq, Eq, Structural)]
pub enum RuleEvent {
    Nothing,
    /// The rule fired and its notification is due.
    Triggered,
    /// The rule cleared.
    Cleared,
}

/// Time from `since` to `now`, zero when `now` is earlier.
pub open spec fn elapsed(since: u64, now: u64) -> int {
    if now >= since {
        now - since
    } else {
        0
    }
}

/// A notification may be sent: none yet, or the cooldown has passed.
pub open spec fn cooled(last: Option<u64>, now: u64, cooldown: u64) -> bool {
    match last {
        Some(t) => elapsed(t, now) >= cooldown,
        None => true,
    }
}

/// One evaluation of a rule at `now`, given whether its trigger and its
/// clear conditions hold. An inactive rule fires when the trigger has held
/// for the minimum duration (at once without one) and notifies unless in
/// cooldown; while waiting it remembers since when the trigger holds, and
/// forgets it as soon as the trigger stops. An active rule clears when its
/// clear condition holds.
pub open spec fn rule_step(s: RuleState, t: RuleTiming, trigger: bool, clear: bool, now: u64) -> (
    RuleState,
    RuleEvent,
) {
    if !s.active {
        if trigger {
            let ps = match s.pending_since {
                Some(p) => p,
                None => now,
            };
            let due = match t.min_duration_ms {
                Some(d) => elapsed(ps, now) >= d,
                None => true,
            };
            if !due {
                (RuleState { pending_since: Some(ps), ..s }, RuleEvent::Nothing)
            } else if cooled(s.last_notified, now, t.cooldown_ms) {
                (
                    RuleState { active: true, pending_since: None, last_notified: Some(now) },
                    RuleEvent::Triggered,
                )
            } else {
                (RuleState { active: true, pending_since: None, ..s }, RuleEvent::Nothing)
            }
        } else {
            (RuleState { pending_since: None, ..s }, RuleEvent::Nothing)
        }
    } else if clear {
        (RuleState { active: false, pending_since: None, ..s }, RuleEvent::Cleared)
    } else {
        (s, RuleEvent::Nothing)
    }
}

fn elapsed_exec(since: u64, now: u64) -> (r: u64)
    ensures
        r == elapsed(since, now),
{
    if now >= since {
        now - since
    } else {
        0
    }
}

impl RuleState {
    /// Evaluates the rule at `now_ms`, given whether its trigger and clear
    /// conditions hold on the current snapshot.
    pub fn step(&mut self, timing: RuleTiming, trigger: bool, clear: bool, now_ms: u64) -> (e:
        RuleEvent)
        ensures
            (*final(self), e) == rule_step(*old(self), timing, trigger, clear, now_ms),
    {
        if !self.active {
            if trigger {
                let ps = match self.pending_since {
                    Some(p) => p,
                    None => now_ms,
                };
                let due = match timing.min_duration_ms {
                    Some(d) => elapsed_exec(ps, now_ms) >= d,
                    None => true,
                };
                if !due {
                    self.pending_since = Some(ps);
                    RuleEvent::Nothing
                } else {
                    self.active = true;
                    self.pending_since = None;
                    let should_notify = match self.last_notified {
                        Some(t) => elapsed_exec(t, now_ms) >= timing.cooldown_ms,
                        None => true,
                    };
                    if should_notify {
                        self.last_notified = Some(now_ms);
                        RuleEvent::Triggered
                    } else {
                        RuleEvent::Nothing
                    }
                }
            } else {
                self.pending_since = None;
                RuleEvent::Nothing
            }
        } else if clear {
            self.active = false;
            self.pending_since = None;
            RuleEvent::Cleared
        } else {
            RuleEvent::Nothing
        }
    }
}

/// Milliseconds of `secs` seconds, capped at `u64::MAX`.
pub open spec fn secs_to_ms(secs: u64) -> u64 {
    if secs * 1000 > u64::MAX {
        u64::MAX
    } else {
        (secs * 1000) as u64
    }
}

/// A configured minimum duration: none when zero.
pub open spec fn min_duration_of(secs: u64) -> Option<u64> {
    if secs > 0 {
        Some(secs_to_ms(secs))
    } else {
        None
    }
}

/// Minimum duration of a rule configured in seconds (0 for none), in
/// milliseconds (capped at `u64::MAX`, an interval never reached).
pub fn dur_opt(secs: u64) -> (r: Option<u64>)
    ensures
        r == min_duration_of(secs),
{
    if secs > 0 {
        if secs > u64::MAX / 1000 {
            Some(u64::MAX)
        } else {
            Some(secs * 1000)
        }
    } else {
        None
    }
}

/// Durations configured for the pack rules, in seconds (0 for none).
#[derive(Debug, Clone, Copy, PartialEq, Eq)]
pub struct RuleDurations {
    pub soc_low_for_secs: u64,
    pub soc_critical_for_secs: u64,
    pub temp_high_for_secs: u64,
    pub current_high_for_secs: u64,
    pub voltage_for_secs: u64,
}

/// The default rules, in evaluation order: id, severity, cooldown (seconds)
/// and minimum duration.
pub open spec fn default_rules(d: RuleDurations) -> Seq<(Seq<char>, Severity, RuleTiming)> {
    seq![
        ("cell_ovp"@, Severity::Critical, RuleTiming { cooldown_ms: 300_000, min_duration_ms: None }),
        ("cell_uvp"@, Severity::Critical, RuleTiming { cooldown_ms: 300_000, min_duration_ms: None }),
        ("cell_imbalance"@, Severity::Warning, RuleTiming { cooldown_ms: 600_000, min_duration_ms: None }),
        ("soc_low"@, Severity::Warning, RuleTiming { cooldown_ms: 900_000, min_duration_ms: min_duration_of(d.soc_low_for_secs) }),
        ("soc_critical"@, Severity::Critical, RuleTiming { cooldown_ms: 300_000, min_duration_ms: min_duration_of(d.soc_critical_for_secs) }),
        ("temp_high"@, Severity::Critical, RuleTiming { cooldown_ms: 300_000, min_duration_ms: min_duration_of(d.temp_high_for_secs) }),
        ("high_current"@, Severity::Warning, RuleTiming { cooldown_ms: 60_000, min_duration_ms: min_duration_of(d.current_high_for_secs) }),
        ("pack_ovp"@, Severity::Critical, RuleTiming { cooldown_ms: 300_000, min_duration_ms: min_duration_of(d.voltage_for_secs) }),
        ("pack_uvp"@, Severity::Critical, RuleTiming { cooldown_ms: 300_000, min_duration_ms: min_duration_of(d.voltage_for_secs) }),
    ]
}

pub open spec fn rule_rows_view(v: Seq<(&'static str, Severity, RuleTiming)>) -> Seq<(Seq<char>, Severity, RuleTiming)> {
    v.map_values(|r: (&'static str, Severity, RuleTiming)| (r.0@, r.1, r.2))
}

/// The identity, severity and timing of the default rules (their trigger
/// and clear conditions read floating-point measurements and are applied by
/// the application).
pub fn rule_table(d: RuleDurations) -> (r: Vec<(&'static str, Severity, RuleTiming)>)
    ensures
        rule_rows_view(r@) == default_rules(d),
{
    let mut v: Vec<(&'static str, Severity, RuleTiming)> = Vec::new();
    v.push(("cell_ovp", Severity::Critical, RuleTiming { cooldown_ms: 300_000, min_duration_ms: None }));
    v.push(("cell_uvp", Severity::Critical, RuleTiming { cooldown_ms: 300_000, min_duration_ms: None }));
    v.push(("cell_imbalance", Severity::Warning, RuleTiming { cooldown_ms: 600_000, min_duration_ms: None }));
    v.push(("soc_low", Severity::Warning, RuleTiming { cooldown_ms: 900_000, min_duration_ms: dur_opt(d.soc_low_for_secs) }));
    v.push(("soc_critical", Severity::Critical, RuleTiming { cooldown_ms: 300_000, min_duration_ms: dur_opt(d.soc_critical_for_secs) }));
    v.push(("temp_high", Severity::Critical, RuleTiming { cooldown_ms: 300_000, min_duration_ms: dur_opt(d.temp_high_for_secs) }));
    v.push(("high_current", Severity::Warning, RuleTiming { cooldown_ms: 60_000, min_duration_ms: dur_opt(d.current_high_for_secs) }));
    v.push(("pack_ovp", Severity::Critical, RuleTiming { cooldown_ms: 300_000, min_duration_ms: dur_opt(d.voltage_for_secs) }));
    v.push(("pack_uvp", Severity::Critical, RuleTiming { cooldown_ms: 300_000, min_duration_ms: dur_opt(d.voltage_for_secs) }));
    proof {
        assert(rule_rows_view(v@) =~= default_rules(d));
    }
    v
}

/// The rules whose alert is critical: over- and under-voltage of a cell or
/// of the pack, critical state of charge, battery over-temperature. The
/// others (cell imbalance, low state of charge, high current) are warnings.
pub open spec fn critical_rule(id: Seq<char>) -> bool {
    id == "cell_ovp"@ || id == "cell_uvp"@ || id == "soc_critical"@ || id == "temp_high"@
        || id == "pack_ovp"@ || id == "pack_uvp"@
}

/// The configured duration a rule must hold before firing (0 for the cell
/// rules, which fire at once).
pub open spec fn configured_secs(id: Seq<char>, d: RuleDurations) -> u64 {
    if id == "soc_low"@ {
        d.soc_low_for_secs
    } else if id == "soc_critical"@ {
        d.soc_critical_for_secs
    } else if id == "temp_high"@ {
        d.temp_high_for_secs
    } else if id == "high_current"@ {
        d.current_high_for_secs
    } else if id == "pack_ovp"@ || id == "pack_uvp"@ {
        d.voltage_for_secs
    } else {
        0
    }
}

/// Cooldown of a rule in seconds: 10 min for the imbalance, 15 min for a
/// low state of charge, 1 min for a high current, 5 min for the others.
pub open spec fn cooldown_secs(id: Seq<char>) -> u64 {
    if id == "cell_imbalance"@ {
        600
    } else if id == "soc_low"@ {
        900
    } else if id == "high_current"@ {
        60
    } else {
        300
    }
}

/// The default rules: nine rules with distinct ids (the cell and pack
/// limits, state of charge, temperature, current); each is critical or a
/// warning as its id says, has its cooldown, and waits for the duration
/// configured for it (none when that duration is 0).
pub proof fn lemma_default_rules_roles(d: RuleDurations)
    ensures
        default_rules(d).len() == 9,
        forall|i: int, j: int|
            0 <= i < j < 9 ==> #[trigger] default_rules(d)[i].0 != #[trigger] default_rules(d)[j].0,
        forall|i: int|
            0 <= i < 9 ==> {
                let r = #[trigger] default_rules(d)[i];
                &&& (r.1 == Severity::Critical) == critical_rule(r.0)
                &&& r.2.cooldown_ms == cooldown_secs(r.0) * 1000
                &&& r.2.min_duration_ms == min_duration_of(configured_secs(r.0, d))
            },
{
    reveal_strlit("cell_ovp");
    reveal_strlit("cell_uvp");
    reveal_strlit("cell_imbalance");
    reveal_strlit("soc_low");
    reveal_strlit("soc_critical");
    reveal_strlit("temp_high");
    reveal_strlit("high_current");
    reveal_strlit("pack_ovp");
    reveal_strlit("pack_uvp");
    let rs = default_rules(d);
    assert(rs[0].0[5] != rs[1].0[5]);
    assert(rs[7].0[5] != rs[8].0[5]);
    assert(rs[3].0[4] != rs[4].0[4]);
    assert(rs[0].0[0] != rs[3].0[0]);
    assert(rs[0].0[0] != rs[5].0[0]);
    assert(rs[0].0[0] != rs[6].0[0]);
    assert(rs[0].0[0] != rs[7].0[0]);
    assert(rs[1].0[0] != rs[3].0[0]);
    assert(rs[1].0[0] != rs[4].0[0]);
    assert(rs[1].0[0] != rs[5].0[0]);
    assert(rs[1].0[0] != rs[6].0[0]);
    assert(rs[1].0[0] != rs[7].0[0]);
    assert(rs[1].0[0] != rs[8].0[0]);
    assert(rs[0].0[0] != rs[4].0[0]);
    assert(rs[0].0[0] != rs[8].0[0]);
    assert(rs[3].0[0] != rs[5].0[0]);
    assert(rs[3].0[0] != rs[6].0[0]);
    assert(rs[3].0[0] != rs[7].0[0]);
    assert(rs[3].0[0] != rs[8].0[0]);
    assert(rs[4].0[0] != rs[5].0[0]);
    assert(rs[4].0[0] != rs[6].0[0]);
    assert(rs[4].0[0] != rs[7].0[0]);
    assert(rs[4].0[0] != rs[8].0[0]);
    assert(rs[5].0[0] != rs[6].0[0]);
    assert(rs[5].0[0] != rs[7].0[0]);
    assert(rs[5].0[0] != rs[8].0[0]);
    assert(rs[6].0[0] != rs[7].0[0]);
    assert(rs[6].0[0] != rs[8].0[0]);
    assert(rs[2].0[0] != rs[3].0[0]);
    assert(rs[2].0[0] != rs[4].0[0]);
    assert(rs[2].0[0] != rs[5].0[0]);
    assert(rs[2].0[0] != rs[6].0[0]);
    assert(rs[2].0[0] != rs[7].0[0]);
    assert(rs[2].0[0] != rs[8].0[0]);
    assert(rs[0].0.len() != rs[2].0.len());
    assert(rs[1].0.len() != rs[2].0.len());
}

/// Evaluates every rule of one BMS on a snapshot: `hits[i]` says whether the
/// trigger and the clear condition of rule `i` hold. Returns the event of
/// each rule, in rule order.
pub fn evaluate_rules(
    states: &mut Vec<RuleState>,
    timings: &Vec<RuleTiming>,
    hits: &Vec<(bool, bool)>,
    now_ms: u64,
) -> (events: Vec<RuleEvent>)
    requires
        old(states)@.len() == timings@.len(),
        hits@.len() == timings@.len(),
    ensures
        final(states)@.len() == old(states)@.len(),
        events@.len() == old(states)@.len(),
        forall|i: int|
            0 <= i < events@.len() ==> (#[trigger] final(states)@[i], events@[i]) == rule_step(
                old(states)@[i],
                timings@[i],
                hits@[i].0,
                hits@[i].1,
                now_ms,
            ),
{
    let n = states.len();
    let ghost before = states@;
    let mut events: Vec<RuleEvent> = Vec::new();
    let mut i: usize = 0;
    while i < n
        invariant
            n == states@.len(),
            n == before.len(),
            n == timings@.len(),
            n == hits@.len(),
            i <= n,
            events@.len() == i,
            forall|k: int| i <= k < n ==> #[trigger] states@[k] == before[k],
            forall|k: int|
                0 <= k < i ==> (#[trigger] states@[k], events@[k]) == rule_step(
                    before[k],
                    timings@[k],
                    hits@[k].0,
                    hits@[k].1,
                    now_ms,
                ),
        decreases n - i,
    {
        let mut s = states[i];
        let e = s.step(timings[i], hits[i].0, hits[i].1, now_ms);
        states[i] = s;
        events.push(e);
        i += 1;
    }
    events
}

/// Hysteresis: an active rule stays active until its clear condition holds,
/// and an inactive one becomes active only while its trigger holds.
pub proof fn lemma_rule_hysteresis(s: RuleState, t: RuleTiming, trigger: bool, clear: bool, now: u64)
    ensures
        s.active && !clear ==> rule_step(s, t, trigger, clear, now).0.active,
        !s.active && !trigger ==> !rule_step(s, t, trigger, clear, now).0.active,
        rule_step(s, t, trigger, clear, now).1 == RuleEvent::Cleared <==> s.active && clear,
{
}

/// Minimum duration: a rule fires only once its trigger has held, evaluation
/// after evaluation, for the minimum duration; the wait restarts whenever the
/// trigger stops holding.
pub proof fn lemma_rule_min_duration(s: RuleState, t: RuleTiming, trigger: bool, clear: bool, now: u64)
    ensures
        !s.active && rule_step(s, t, trigger, clear, now).0.active ==> trigger && match t.min_duration_ms {
            Some(d) => d == 0 || (s.pending_since matches Some(p) && elapsed(p, now) >= d),
            None => true,
        },
        !s.active && !trigger ==> rule_step(s, t, trigger, clear, now).0.pending_since is None,
        !s.active && trigger && !rule_step(s, t, trigger, clear, now).0.active ==> rule_step(
            s,
            t,
            trigger,
            clear,
            now,
        ).0.pending_since == Some(
            match s.pending_since {
                Some(p) => p,
                None => now,
            },
        ),
{
}

/// Cooldown: a notification is sent only when none was sent within the
/// cooldown, and the time of the last notification changes only when one
/// is sent.
pub proof fn lemma_rule_cooldown(s: RuleState, t: RuleTiming, trigger: bool, clear: bool, now: u64)
    ensures
        rule_step(s, t, trigger, clear, now).1 == RuleEvent::Triggered ==> cooled(
            s.last_notified,
            now,
            t.cooldown_ms,
        ) && rule_step(s, t, trigger, clear, now).0.last_notified == Some(now),
        rule_step(s, t, trigger, clear, now).1 != RuleEvent::Triggered ==> rule_step(
            s,
            t,
            trigger,
            clear,
            now,
        ).0.last_notified == s.last_notified,
{
}

/// Index of the last evaluation among the first `k` that sent a
/// notification.
pub open spec fn last_triggered(events: Seq<RuleEvent>, k: int) -> Option<int>
    decreases k,
{
    if k <= 0 {
        None
    } else if events[k - 1] == RuleEvent::Triggered {
        Some(k - 1)
    } else {
        last_triggered(events, k - 1)
    }
}

/// `states` and `events` are the successive states and events of a rule
/// evaluated from its initial state on the given conditions and times.
pub open spec fn rule_replayed(
    states: Seq<RuleState>,
    events: Seq<RuleEvent>,
    t: RuleTiming,
    trig: Seq<bool>,
    clear: Seq<bool>,
    times: Seq<u64>,
) -> bool {
    &&& states.len() == events.len() + 1
    &&& trig.len() == events.len()
    &&& clear.len() == events.len()
    &&& times.len() == events.len()
    &&& states[0] == (RuleState { active: false, last_notified: None, pending_since: None })
    &&& forall|j: int|
        0 <= j < events.len() ==> (#[trigger] states[j + 1], events[j]) == rule_step(
            states[j],
            t,
            trig[j],
            clear[j],
            times[j],
        )
}

proof fn lemma_last_triggered_bounds(events: Seq<RuleEvent>, k: int, a: int)
    requires
        0 <= a < k <= events.len(),
        events[a] == RuleEvent::Triggered,
    ensures
        last_triggered(events, k) matches Some(l) && a <= l < k && events[l] == RuleEvent::Triggered,
    decreases k,
{
    if events[k - 1] != RuleEvent::Triggered {
        lemma_last_triggered_bounds(events, k - 1, a);
    }
}

proof fn lemma_rule_invariant(
    states: Seq<RuleState>,
    events: Seq<RuleEvent>,
    t: RuleTiming,
    trig: Seq<bool>,
    clear: Seq<bool>,
    times: Seq<u64>,
    k: int,
)
    requires
        rule_replayed(states, events, t, trig, clear, times),
        0 <= k <= events.len(),
    ensures
        states[k].last_notified == match last_triggered(events, k) {
            Some(l) => Some(times[l]),
            None => None::<u64>,
        },
        states[k].active ==> states[k].pending_since is None,
        states[k].active ==> exists|a: int|
            0 <= a < k && #[trigger] trig[a] && forall|m: int| a <= m < k ==> events[m] != RuleEvent::Cleared,
        states[k].pending_since matches Some(p) ==> exists|t0: int|
            0 <= t0 < k && #[trigger] times[t0] == p && forall|m: int| t0 <= m < k ==> trig[m],
    decreases k,
{
    if k > 0 {
        let j = k - 1;
        lemma_rule_invariant(states, events, t, trig, clear, times, j);
        assert((states[j + 1], events[j]) == rule_step(states[j], t, trig[j], clear[j], times[j]));
        assert(states[j + 1] == states[k]);
        if states[k].active {
            assert(events[j] != RuleEvent::Cleared);
            if states[j].active {
                let a = choose|a: int|
                    0 <= a < j && #[trigger] trig[a] && forall|m: int| a <= m < j ==> events[m] != RuleEvent::Cleared;
                assert(0 <= a < k && trig[a] && forall|m: int| a <= m < k ==> events[m] != RuleEvent::Cleared);
            } else {
                assert(trig[j]);
                assert(0 <= j < k && trig[j] && forall|m: int| j <= m < k ==> events[m] != RuleEvent::Cleared);
            }
        }
        if let Some(p) = states[k].pending_since {
            if let Some(q) = states[j].pending_since {
                let t0 = choose|t0: int|
                    0 <= t0 < j && #[trigger] times[t0] == q && forall|m: int| t0 <= m < j ==> trig[m];
                assert(p == q && trig[j]);
                assert(0 <= t0 < k && times[t0] == p && forall|m: int| t0 <= m < k ==> trig[m]);
            } else {
                assert(0 <= j < k && times[j] == p && forall|m: int| j <= m < k ==> trig[m]);
            }
        }
    }
}

/// Over any sequence of evaluations of a rule at non-decreasing times, from
/// its initial state: two notifications are always at least the cooldown
/// apart; with a minimum duration `d`, a notification is sent only when the
/// trigger held on every evaluation back to one at least `d` earlier; and a
/// clearing needs a trigger since the previous clearing.
pub proof fn lemma_rule_sequence(
    states: Seq<RuleState>,
    events: Seq<RuleEvent>,
    t: RuleTiming,
    trig: Seq<bool>,
    clear: Seq<bool>,
    times: Seq<u64>,
)
    requires
        rule_replayed(states, events, t, trig, clear, times),
        forall|a: int, b: int| 0 <= a <= b < times.len() ==> times[a] <= times[b],
    ensures
        forall|a: int, b: int|
            0 <= a < b < events.len() && #[trigger] events[a] == RuleEvent::Triggered
                && #[trigger] events[b] == RuleEvent::Triggered ==> times[b] - times[a]
                >= t.cooldown_ms,
        forall|b: int|
            0 <= b < events.len() && #[trigger] events[b] == RuleEvent::Triggered
                && t.min_duration_ms is Some ==> exists|t0: int|
                0 <= t0 <= b && times[b] - #[trigger] times[t0] >= t.min_duration_ms.unwrap()
                    && forall|m: int| t0 <= m <= b ==> trig[m],
        forall|b: int|
            0 <= b < events.len() && #[trigger] events[b] == RuleEvent::Cleared ==> exists|a: int|
                0 <= a < b && #[trigger] trig[a] && forall|m: int|
                    a <= m < b ==> events[m] != RuleEvent::Cleared,
{
    assert forall|b: int| 0 <= b < events.len() && #[trigger] events[b] == RuleEvent::Cleared implies exists|a: int|
        0 <= a < b && #[trigger] trig[a] && forall|m: int| a <= m < b ==> events[m] != RuleEvent::Cleared by {
        lemma_rule_invariant(states, events, t, trig, clear, times, b);
        assert((states[b + 1], events[b]) == rule_step(states[b], t, trig[b], clear[b], times[b]));
        assert(states[b].active);
    }
    assert forall|a: int, b: int|
        0 <= a < b < events.len() && #[trigger] events[a] == RuleEvent::Triggered
            && #[trigger] events[b] == RuleEvent::Triggered implies times[b] - times[a]
        >= t.cooldown_ms by {
        lemma_rule_invariant(states, events, t, trig, clear, times, b);
        lemma_last_triggered_bounds(events, b, a);
        assert((states[b + 1], events[b]) == rule_step(states[b], t, trig[b], clear[b], times[b]));
        let l = last_triggered(events, b).unwrap();
        assert(times[a] <= times[l]);
    }
    assert forall|b: int|
        0 <= b < events.len() && #[trigger] events[b] == RuleEvent::Triggered
            && t.min_duration_ms is Some implies exists|t0: int|
        0 <= t0 <= b && times[b] - #[trigger] times[t0] >= t.min_duration_ms.unwrap()
            && forall|m: int| t0 <= m <= b ==> trig[m] by {
        lemma_rule_invariant(states, events, t, trig, clear, times, b);
        assert((states[b + 1], events[b]) == rule_step(states[b], t, trig[b], clear[b], times[b]));
        match states[b].pending_since {
            Some(q) => {
                let t0 = choose|t0: int|
                    0 <= t0 < b && #[trigger] times[t0] == q && forall|m: int| t0 <= m < b ==> trig[m];
                assert(times[t0] <= times[b]);
                assert(0 <= t0 <= b && times[b] - times[t0] >= t.min_duration_ms.unwrap()
                    && forall|m: int| t0 <= m <= b ==> trig[m]);
            },
            None => {
                assert(0 <= b <= b && times[b] - times[b] >= t.min_duration_ms.unwrap()
                    && forall|m: int| b <= m <= b ==> trig[m]);
            },
        }
    }
}

} // verus!
