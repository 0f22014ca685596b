//! DEYE relay control: the stateless relay decision, the two debounce timers
//! that feed it, and the grid-tie indicator.
//!
//! Times are Unix epoch seconds. The frequency comparisons (`freq >= high`,
//! `freq >= hard`) are made by the caller, which hands the two resulting
//! booleans to [`DeyeController::step`].
use vstd::prelude::*;

verus! {

/// Desired relay state (`true` = ON) from the current state and the flags:
/// while ON the relay cuts on a hard spike or a debounced cut; while OFF it
/// restores once the clear condition has been debounced.
pub open spec fn relay_decision(
    relay_on: bool,
    hard_cut: bool,
    cut_debounced: bool,
    restore_debounced: bool,
) -> bool {
    if relay_on {
        !(hard_cut || cut_debounced)
    } else {
        restore_debounced
    }
}

/// Returns the desired relay state from the current state and pre-computed flags.
pub fn decide(relay_on: bool, hard_cut: bool, cut_debounced: bool, restore_debounced: bool) -> (r:
    bool)
    ensures
        r == relay_decision(relay_on, hard_cut, cut_debounced, restore_debounced),
{
    if relay_on {
        !(hard_cut || cut_debounced)
    } else {
        restore_debounced
    }
}

/// Whether the Victron is grid-tied: not deliberately islanded
/// (`IgnoreAcIn1 != 1`) and not in a grid outage (`Connected != 0`).
pub open spec fn grid_connected(ac_ignore: Option<i64>, ac_connected: Option<i64>) -> bool {
    ac_ignore != Some(1i64) && ac_connected != Some(0i64)
}

pub fn is_grid_connected(ac_ignore: Option<i64>, ac_connected: Option<i64>) -> (r: bool)
    ensures
        r == grid_connected(ac_ignore, ac_connected),
{
    let ignored = match ac_ignore {
        Some(v) => v == 1,
        None => false,
    };
    let outage = match ac_connected {
        Some(v) => v == 0,
        None => false,
    };
    !ignored && !outage
}

/// Flags handed to [`decide`].
#[derive(Debug, Clone, Copy, PartialEq, Eq)]
pub struct DeyeFlags {
    pub hard_cut: bool,
    pub cut_debounced: bool,
    pub restore_debounced: bool,
}

/// Relay state and the two debounce anchors (epoch seconds since which the
/// cut, resp. clear, condition has held without interruption).
#[derive(Debug, Clone, Copy, PartialEq, Eq)]
pub struct DeyeController {
    pub relay_on: bool,
    pub cut_since: Option<i64>,
    pub restore_since: Option<i64>,
}

/// A condition anchored at `since` has held for at least `secs` seconds at
/// `now` (a negative elapsed time counts as zero).
pub open spec fn held(since: Option<i64>, now: i64, secs: u64) -> bool {
    match since {
        Some(t) => {
            let elapsed = now - t;
            (if elapsed < 0 { 0 } else { elapsed }) >= secs
        },
        None => false,
    }
}

/// New anchor of a condition: kept while the condition holds (started now if
/// it was not running), dropped when it does not hold.
pub open spec fn next_anchor(anchor: Option<i64>, active: bool, now: i64) -> Option<i64> {
    if active {
        match anchor {
            Some(t) => Some(t),
            None => Some(now),
        }
    } else {
        None
    }
}

/// Controller after one evaluation at `now`.
pub open spec fn step_state(
    c: DeyeController,
    should_cut: bool,
    hard_cut: bool,
    now: i64,
    cut_delay_secs: u64,
    reenable_delay_secs: u64,
) -> DeyeController {
    let cut_since = next_anchor(c.cut_since, should_cut, now);
    let restore_since = next_anchor(c.restore_since, !should_cut, now);
    DeyeController {
        relay_on: relay_decision(
            c.relay_on,
            hard_cut,
            held(cut_since, now, cut_delay_secs),
            held(restore_since, now, reenable_delay_secs),
        ),
        cut_since,
        restore_since,
    }
}

fn held_exec(since: Option<i64>, now: i64, secs: u64) -> (r: bool)
    ensures
        r == held(since, now, secs),
{
    match since {
        Some(t) => {
            let elapsed: i128 = now as i128 - t as i128;
            if elapsed < 0 {
                secs == 0
            } else {
                elapsed >= secs as i128
            }
        },
        None => false,
    }
}

impl DeyeController {
    pub fn new(relay_on: bool) -> (c: Self)
        ensures
            c == (DeyeController { relay_on, cut_since: None, restore_since: None }),
    {
        DeyeController { relay_on, cut_since: None, restore_since: None }
    }

    /// Updates the debounce anchors from the current condition (`should_cut` =
    /// frequency at/above the boundary or MPPT full) and returns the flags.
    pub fn flags(
        &mut self,
        should_cut: bool,
        hard_cut: bool,
        now: i64,
        cut_delay_secs: u64,
        reenable_delay_secs: u64,
    ) -> (f: DeyeFlags)
        ensures
            final(self).relay_on == old(self).relay_on,
            final(self).cut_since == next_anchor(old(self).cut_since, should_cut, now),
            final(self).restore_since == next_anchor(old(self).restore_since, !should_cut, now),
            f.hard_cut == hard_cut,
            f.cut_debounced == held(final(self).cut_since, now, cut_delay_secs),
            f.restore_debounced == held(final(self).restore_since, now, reenable_delay_secs),
    {
        if should_cut {
            if self.cut_since.is_none() {
                self.cut_since = Some(now);
            }
            self.restore_since = None;
        } else {
            if self.restore_since.is_none() {
                self.restore_since = Some(now);
            }
            self.cut_since = None;
        }
        DeyeFlags {
            hard_cut,
            cut_debounced: held_exec(self.cut_since, now, cut_delay_secs),
            restore_debounced: held_exec(self.restore_since, now, reenable_delay_secs),
        }
    }

    /// Applies a decision; returns `Some(new_state)` iff the relay changed.
    pub fn set(&mut self, desired_on: bool) -> (changed: Option<bool>)
        ensures
            final(self).relay_on == desired_on,
            final(self).cut_since == old(self).cut_since,
            final(self).restore_since == old(self).restore_since,
            changed == (if desired_on != old(self).relay_on {
                Some(desired_on)
            } else {
                None::<bool>
            }),
    {
        if desired_on != self.relay_on {
            self.relay_on = desired_on;
            Some(desired_on)
        } else {
            None
        }
    }

    /// One evaluation tick: anchors, flags, decision, application. Returns the
    /// relay change, if any.
    pub fn step(
        &mut self,
        should_cut: bool,
        hard_cut: bool,
        now: i64,
        cut_delay_secs: u64,
        reenable_delay_secs: u64,
    ) -> (changed: Option<bool>)
        ensures
            *final(self) == step_state(
                *old(self),
                should_cut,
                hard_cut,
                now,
                cut_delay_secs,
                reenable_delay_secs,
            ),
            changed == (if final(self).relay_on != old(self).relay_on {
                Some(final(self).relay_on)
            } else {
                None::<bool>
            }),
    {
        let f = self.flags(should_cut, hard_cut, now, cut_delay_secs, reenable_delay_secs);
        let desired = decide(self.relay_on, f.hard_cut, f.cut_debounced, f.restore_debounced);
        self.set(desired)
    }
}

/// Freshness of the decision inputs, from their last report times (epoch
/// seconds). A stale frequency is to be read as nominal; stale MPPT states
/// never hold the relay off.
#[derive(Debug, Clone, Copy, PartialEq, Eq)]
pub struct DeyeInputFlags {
    pub freq_stale: bool,
    pub mppt_full: bool,
    pub mppt_stale: bool,
}

/// A report taken at `ts` is stale at `now`: never reported, or older than
/// `max_age` seconds.
pub open spec fn stale_at(ts: Option<i64>, now: i64, max_age: i64) -> bool {
    match ts {
        Some(t) => now - t > max_age,
        None => true,
    }
}

/// An MPPT state is one of the configured "battery full" states.
pub open spec fn full_state(st: Option<i64>, full_states: Seq<i64>) -> bool {
    match st {
        Some(v) => full_states.contains(v),
        None => false,
    }
}

/// The input flags: the frequency is stale when its report is; the MPPT pair
/// is stale unless at least one charger reported recently (the youngest age is
/// within `max_age`); the battery counts as full only with the MPPT cut
/// enabled, fresh MPPT data and one charger in a full state.
pub open spec fn input_flags(
    freq_ts: Option<i64>,
    mppt_a: (Option<i64>, Option<i64>),
    mppt_b: (Option<i64>, Option<i64>),
    now: i64,
    max_age: i64,
    cut_enabled: bool,
    full_states: Seq<i64>,
) -> DeyeInputFlags {
    let mppt_stale = stale_at(mppt_a.1, now, max_age) && stale_at(mppt_b.1, now, max_age);
    DeyeInputFlags {
        freq_stale: stale_at(freq_ts, now, max_age),
        mppt_full: cut_enabled && !mppt_stale && (full_state(mppt_a.0, full_states) || full_state(
            mppt_b.0,
            full_states,
        )),
        mppt_stale,
    }
}

fn stale_exec(ts: Option<i64>, now: i64, max_age: i64) -> (r: bool)
    ensures
        r == stale_at(ts, now, max_age),
{
    match ts {
        Some(t) => (now as i128 - t as i128) > max_age as i128,
        None => true,
    }
}

fn full_exec(st: Option<i64>, full_states: &Vec<i64>) -> (r: bool)
    ensures
        r == full_state(st, full_states@),
{
    match st {
        Some(v) => {
            let mut i: usize = 0;
            while i < full_states.len()
                invariant
                    st == Some(v),
                    i <= full_states.len(),
                    forall|j: int| 0 <= j < i ==> full_states@[j] != v,
                decreases full_states.len() - i,
            {
                if full_states[i] == v {
                    assert(full_states@[i as int] == v);
                    return true;
                }
                i += 1;
            }
            false
        },
        None => false,
    }
}

/// Computes the input flags from the report times and states of the two MPPT
/// chargers (`(state, state_last_ts)` each) and the frequency report time.
pub fn read_input_flags(
    freq_ts: Option<i64>,
    mppt_a: (Option<i64>, Option<i64>),
    mppt_b: (Option<i64>, Option<i64>),
    now: i64,
    max_age: i64,
    cut_enabled: bool,
    full_states: &Vec<i64>,
) -> (f: DeyeInputFlags)
    ensures
        f == input_flags(freq_ts, mppt_a, mppt_b, now, max_age, cut_enabled, full_states@),
{
    let mppt_stale = stale_exec(mppt_a.1, now, max_age) && stale_exec(mppt_b.1, now, max_age);
    let mppt_full = cut_enabled && !mppt_stale && (full_exec(mppt_a.0, full_states) || full_exec(
        mppt_b.0,
        full_states,
    ));
    DeyeInputFlags { freq_stale: stale_exec(freq_ts, now, max_age), mppt_full, mppt_stale }
}

/// Frozen MPPT telemetry never holds the relay off: when neither charger has
/// reported within `max_age`, the battery does not count as full.
pub proof fn lemma_stale_mppt_is_not_full(
    freq_ts: Option<i64>,
    mppt_a: (Option<i64>, Option<i64>),
    mppt_b: (Option<i64>, Option<i64>),
    now: i64,
    max_age: i64,
    cut_enabled: bool,
    full_states: Seq<i64>,
)
    requires
        stale_at(mppt_a.1, now, max_age),
        stale_at(mppt_b.1, now, max_age),
    ensures
        input_flags(freq_ts, mppt_a, mppt_b, now, max_age, cut_enabled, full_states).mppt_stale,
        !input_flags(freq_ts, mppt_a, mppt_b, now, max_age, cut_enabled, full_states).mppt_full,
{
}

/// A report taken at `ts` is recent at `now`: it exists and is at most
/// `max_age` seconds old.
pub open spec fn recent(ts: Option<i64>, now: i64, max_age: i64) -> bool {
    ts matches Some(t) && now - t <= max_age
}

/// A charger reports one of the configured "battery full" states.
pub open spec fn reports_full(st: Option<i64>, full_states: Seq<i64>) -> bool {
    st matches Some(v) && full_states.contains(v)
}

/// The input flags treat the two chargers alike: swapping them changes
/// nothing; the MPPT data counts as fresh when either charger reported
/// recently; and, with the cut enabled and fresh data, the battery counts as
/// full exactly when either charger is in a full state. The frequency is
/// stale exactly when it was not reported recently.
pub proof fn lemma_either_charger_counts(
    freq_ts: Option<i64>,
    mppt_a: (Option<i64>, Option<i64>),
    mppt_b: (Option<i64>, Option<i64>),
    now: i64,
    max_age: i64,
    cut_enabled: bool,
    full_states: Seq<i64>,
)
    ensures
        input_flags(freq_ts, mppt_a, mppt_b, now, max_age, cut_enabled, full_states) == input_flags(
            freq_ts,
            mppt_b,
            mppt_a,
            now,
            max_age,
            cut_enabled,
            full_states,
        ),
        input_flags(freq_ts, mppt_a, mppt_b, now, max_age, cut_enabled, full_states).freq_stale
            == !recent(freq_ts, now, max_age),
        input_flags(freq_ts, mppt_a, mppt_b, now, max_age, cut_enabled, full_states).mppt_stale
            == !(recent(mppt_a.1, now, max_age) || recent(mppt_b.1, now, max_age)),
        input_flags(freq_ts, mppt_a, mppt_b, now, max_age, cut_enabled, full_states).mppt_full
            == (cut_enabled && (recent(mppt_a.1, now, max_age) || recent(mppt_b.1, now, max_age))
            && (reports_full(mppt_a.0, full_states) || reports_full(mppt_b.0, full_states))),
{
}

/// A hard frequency spike cuts an ON relay at once, whatever the timers.
pub proof fn lemma_hard_spike_cuts_immediately(
    c: DeyeController,
    should_cut: bool,
    now: i64,
    cut_delay_secs: u64,
    reenable_delay_secs: u64,
)
    requires
        c.relay_on,
    ensures
        !step_state(c, should_cut, true, now, cut_delay_secs, reenable_delay_secs).relay_on,
{
}

/// The relay can never stay stranded OFF: once the clear condition has been
/// observed at `t0`, a later clear evaluation at `t1 >= t0 + reenable_delay_secs`
/// leaves the relay ON (provided time did not run backwards before `t0`).
pub proof fn lemma_clear_condition_restores(
    c: DeyeController,
    t0: i64,
    t1: i64,
    cut_delay_secs: u64,
    reenable_delay_secs: u64,
)
    requires
        c.restore_since is None || c.restore_since.unwrap() <= t0,
        t0 + reenable_delay_secs <= t1,
    ensures
        step_state(
            step_state(c, false, false, t0, cut_delay_secs, reenable_delay_secs),
            false,
            false,
            t1,
            cut_delay_secs,
            reenable_delay_secs,
        ).relay_on,
{
}

/// An ON relay whose cut condition has held `cut_delay_secs` (anchored at or
/// before `t0`, evaluated again at `t1`) is cut.
pub proof fn lemma_sustained_cut_condition_cuts(
    c: DeyeController,
    t0: i64,
    t1: i64,
    cut_delay_secs: u64,
    reenable_delay_secs: u64,
)
    requires
        c.cut_since is None || c.cut_since.unwrap() <= t0,
        t0 + cut_delay_secs <= t1,
    ensures
        !step_state(
            step_state(c, true, false, t0, cut_delay_secs, reenable_delay_secs),
            true,
            false,
            t1,
            cut_delay_secs,
            reenable_delay_secs,
        ).relay_on,
{
}

/// First index of the run of equal conditions `v` that ends at call `i`
/// (call `i` itself has condition `v`).
pub open spec fn run_start(conds: Seq<bool>, i: int, v: bool) -> int
    decreases i,
{
    if i > 0 && conds[i - 1] == v {
        run_start(conds, i - 1, v)
    } else {
        i
    }
}

/// Anchor of the condition `v` after call `k - 1`: the time of the first call
/// of the current run when call `k - 1` had condition `v`, none otherwise.
pub open spec fn run_anchor(conds: Seq<bool>, times: Seq<i64>, k: int, v: bool) -> Option<i64> {
    if k > 0 && conds[k - 1] == v {
        Some(times[run_start(conds, k - 1, v)])
    } else {
        None
    }
}

proof fn lemma_run_start_bounds(conds: Seq<bool>, i: int, v: bool)
    requires
        0 <= i < conds.len(),
    ensures
        0 <= run_start(conds, i, v) <= i,
    decreases i,
{
    if i > 0 && conds[i - 1] == v {
        lemma_run_start_bounds(conds, i - 1, v);
    }
}

proof fn lemma_debounce_anchors(
    states: Seq<DeyeController>,
    conds: Seq<bool>,
    hard: Seq<bool>,
    times: Seq<i64>,
    cut_delay_secs: u64,
    reenable_delay_secs: u64,
    k: int,
)
    requires
        states.len() == conds.len() + 1,
        hard.len() == conds.len(),
        times.len() == conds.len(),
        states[0].cut_since is None,
        states[0].restore_since is None,
        forall|j: int|
            0 <= j < conds.len() ==> #[trigger] states[j + 1] == step_state(
                states[j],
                conds[j],
                hard[j],
                times[j],
                cut_delay_secs,
                reenable_delay_secs,
            ),
        0 <= k <= conds.len(),
    ensures
        states[k].cut_since == run_anchor(conds, times, k, true),
        states[k].restore_since == run_anchor(conds, times, k, false),
    decreases k,
{
    if k > 0 {
        lemma_debounce_anchors(
            states,
            conds,
            hard,
            times,
            cut_delay_secs,
            reenable_delay_secs,
            k - 1,
        );
        let j = k - 1;
        assert(states[j + 1] == step_state(
            states[j],
            conds[j],
            hard[j],
            times[j],
            cut_delay_secs,
            reenable_delay_secs,
        ));
        assert(states[j + 1] == states[k]);
    }
}

/// Over any sequence of evaluations at non-decreasing times, from a
/// controller with no running timer: after each evaluation the cut timer runs
/// exactly while the cut condition holds, anchored at the first evaluation of
/// its current uninterrupted run (likewise the restore timer for the clear
/// condition); so the relay is cut on a debounce only when the condition held
/// on every evaluation of the last `cut_delay_secs` (back to one at `t0` with
/// `now - t0 >= cut_delay_secs`), and restored only when the clear condition
/// held likewise for `reenable_delay_secs`.
pub proof fn lemma_debounce_sequence(
    states: Seq<DeyeController>,
    conds: Seq<bool>,
    hard: Seq<bool>,
    times: Seq<i64>,
    cut_delay_secs: u64,
    reenable_delay_secs: u64,
)
    requires
        states.len() == conds.len() + 1,
        hard.len() == conds.len(),
        times.len() == conds.len(),
        states[0].cut_since is None,
        states[0].restore_since is None,
        forall|a: int, b: int| 0 <= a <= b < times.len() ==> times[a] <= times[b],
        forall|j: int|
            0 <= j < conds.len() ==> #[trigger] states[j + 1] == step_state(
                states[j],
                conds[j],
                hard[j],
                times[j],
                cut_delay_secs,
                reenable_delay_secs,
            ),
    ensures
        forall|i: int|
            0 <= i < conds.len() ==> {
                let t0 = run_start(conds, i, conds[i]);
                &&& 0 <= t0 <= i
                &&& forall|m: int| t0 <= m <= i ==> conds[m] == conds[i]
                &&& #[trigger] states[i + 1].relay_on == relay_decision(
                    states[i].relay_on,
                    hard[i],
                    conds[i] && times[i] - times[t0] >= cut_delay_secs,
                    !conds[i] && times[i] - times[t0] >= reenable_delay_secs,
                )
            },
{
    assert forall|i: int| 0 <= i < conds.len() implies {
        let t0 = run_start(conds, i, conds[i]);
        &&& 0 <= t0 <= i
        &&& forall|m: int| t0 <= m <= i ==> conds[m] == conds[i]
        &&& #[trigger] states[i + 1].relay_on == relay_decision(
            states[i].relay_on,
            hard[i],
            conds[i] && times[i] - times[t0] >= cut_delay_secs,
            !conds[i] && times[i] - times[t0] >= reenable_delay_secs,
        )
    } by {
        lemma_run_start_bounds(conds, i, conds[i]);
        lemma_run_same(conds, i, conds[i]);
        lemma_debounce_anchors(
            states,
            conds,
            hard,
            times,
            cut_delay_secs,
            reenable_delay_secs,
            i + 1,
        );
        assert(states[i + 1] == step_state(
            states[i],
            conds[i],
            hard[i],
            times[i],
            cut_delay_secs,
            reenable_delay_secs,
        ));
        let t0 = run_start(conds, i, conds[i]);
        assert(times[t0] <= times[i]);
    }
}

proof fn lemma_run_same(conds: Seq<bool>, i: int, v: bool)
    requires
        0 <= i < conds.len(),
        conds[i] == v,
    ensures
        forall|m: int| run_start(conds, i, v) <= m <= i ==> conds[m] == v,
    decreases i,
{
    if i > 0 && conds[i - 1] == v {
        lemma_run_same(conds, i - 1, v);
    }
}

} // verus!
