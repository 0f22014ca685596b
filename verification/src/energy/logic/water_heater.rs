//! Water heater: the mode decision, and the decisions of its control loop
//! (tank held at its maximum temperature, whether to send a mode change,
//! least time between two changes, count of failed sends). Times are epoch
//! seconds.
use vstd::prelude::*;
use crate::energy::types::WaterHeaterMode;
use crate::text::str_eq;

verus! {

/// `"VACATION"` as soon as one blocking condition holds, `"HEAT_PUMP"` otherwise.
pub open spec fn water_heater_mode(
    grid_connected: bool,
    soc_low: bool,
    irradiance_low: bool,
    temp_max_reached: bool,
) -> Seq<char> {
    if grid_connected || soc_low || irradiance_low || temp_max_reached {
        "VACATION"@
    } else {
        "HEAT_PUMP"@
    }
}

/// Returns `"HEAT_PUMP"` only when every condition is clear; any active
/// condition (grid on, low SOC, low irradiance, tank held at its maximum)
/// forces `"VACATION"`.
pub fn evaluate(
    grid_connected: bool,
    soc_low: bool,
    irradiance_low: bool,
    temp_max_reached: bool,
) -> (r: &'static str)
    ensures
        r@ == water_heater_mode(grid_connected, soc_low, irradiance_low, temp_max_reached),
{
    if grid_connected || soc_low || irradiance_low || temp_max_reached {
        "VACATION"
    } else {
        "HEAT_PUMP"
    }
}

/// Mode targeted by the rule.
pub open spec fn target_mode(
    grid_connected: bool,
    soc_low: bool,
    irradiance_low: bool,
    temp_max_reached: bool,
) -> WaterHeaterMode {
    if grid_connected || soc_low || irradiance_low || temp_max_reached {
        WaterHeaterMode::Vacation
    } else {
        WaterHeaterMode::HeatPump
    }
}

/// Settings of the control loop used by its decisions.
#[derive(Debug, Clone, Copy, PartialEq, Eq, Structural)]
pub struct WaterHeaterTiming {
    /// Least time between two mode changes.
    pub mode_change_min_secs: u64,
    /// How long the tank must stay at its maximum temperature to count as
    /// full.
    pub temp_max_hold_secs: u64,
}

/// What a control tick reads (the comparisons of measured values with their
/// thresholds are made by the caller).
#[derive(Debug, Clone, Copy, PartialEq, Eq, Structural)]
pub struct WaterHeaterReadings {
    /// Tank temperature known and at or above its maximum.
    pub tank_at_max: bool,
    /// Grid flag of the inverter (`0` when the grid is connected), if known.
    pub ac_ignore: Option<i64>,
    /// Whether the state of charge is below its minimum, if known.
    pub soc_low: Option<bool>,
    /// Irradiance below its minimum, or unknown.
    pub irradiance_low: bool,
    /// Mode the heater is in.
    pub actual_mode: WaterHeaterMode,
}

/// What a control tick decides.
#[derive(Debug, Clone, Copy, PartialEq, Eq, Structural)]
pub enum WaterHeaterDecision {
    /// Grid flag or state of charge not received yet: nothing evaluated.
    Skip,
    /// The heater is already in the targeted mode.
    Keep,
    /// A change to this mode is due but the last change is too recent.
    Cooldown(WaterHeaterMode),
    /// Send this mode to the heater.
    Send(WaterHeaterMode),
}

/// Memory of the control loop.
#[derive(Debug, Clone, Copy, PartialEq, Eq, Structural)]
pub struct WaterHeaterControl {
    /// Time of the last mode change sent successfully.
    pub last_change: Option<i64>,
    /// Failed sends in a row.
    pub consecutive_fails: u32,
    /// Since when the tank has been at its maximum temperature.
    pub temp_max_since: Option<i64>,
}

/// Tracking of the tank at its maximum at `now`: the first time it is seen
/// there is remembered and it counts as full once held `hold` seconds;
/// below the maximum the tracking restarts.
pub open spec fn held_at_max(since: Option<i64>, at_max: bool, now: i64, hold: u64) -> (
    Option<i64>,
    bool,
) {
    if at_max {
        let s = match since {
            Some(x) => x,
            None => now,
        };
        (Some(s), (if now - s > 0 {
            now - s
        } else {
            0
        }) >= hold)
    } else {
        (None, false)
    }
}

/// A time difference read as an unsigned number of seconds (a negative one
/// wraps around).
pub open spec fn as_unsigned(d: int) -> int {
    if d >= 0 {
        d
    } else {
        d + 0x1_0000_0000_0000_0000
    }
}

/// A mode change is allowed: none yet, or the last one is old enough.
pub open spec fn may_change(last: Option<i64>, now: i64, min_secs: u64) -> bool {
    match last {
        Some(t) => as_unsigned(now - t) >= min_secs,
        None => true,
    }
}

/// One control tick at `now`.
pub open spec fn water_heater_tick(
    c: WaterHeaterControl,
    t: WaterHeaterTiming,
    r: WaterHeaterReadings,
    now: i64,
) -> (WaterHeaterControl, WaterHeaterDecision) {
    let (since, reached) = held_at_max(c.temp_max_since, r.tank_at_max, now, t.temp_max_hold_secs);
    let c1 = WaterHeaterControl { temp_max_since: since, ..c };
    match (r.ac_ignore, r.soc_low) {
        (Some(ac), Some(soc_low)) => {
            let target = target_mode(ac == 0, soc_low, r.irradiance_low, reached);
            if r.actual_mode == target {
                (WaterHeaterControl { consecutive_fails: 0, ..c1 }, WaterHeaterDecision::Keep)
            } else if !may_change(c.last_change, now, t.mode_change_min_secs) {
                (c1, WaterHeaterDecision::Cooldown(target))
            } else {
                (c1, WaterHeaterDecision::Send(target))
            }
        },
        _ => (c1, WaterHeaterDecision::Skip),
    }
}

impl WaterHeaterControl {
    pub fn new() -> (c: Self)
        ensures
            c == (WaterHeaterControl { last_change: None, consecutive_fails: 0, temp_max_since: None }),
    {
        WaterHeaterControl { last_change: None, consecutive_fails: 0, temp_max_since: None }
    }

    /// Decides a control tick at `now`.
    pub fn tick(&mut self, timing: WaterHeaterTiming, r: WaterHeaterReadings, now: i64) -> (d:
        WaterHeaterDecision)
        ensures
            (*final(self), d) == water_heater_tick(*old(self), timing, r, now),
    {
        let reached = if r.tank_at_max {
            let s = match self.temp_max_since {
                Some(x) => x,
                None => now,
            };
            self.temp_max_since = Some(s);
            let d: i128 = now as i128 - s as i128;
            let held: i128 = if d > 0 {
                d
            } else {
                0
            };
            held >= timing.temp_max_hold_secs as i128
        } else {
            self.temp_max_since = None;
            false
        };
        let (ac, soc_low) = match (r.ac_ignore, r.soc_low) {
            (Some(ac), Some(soc_low)) => (ac, soc_low),
            _ => return WaterHeaterDecision::Skip,
        };
        proof {
            reveal_strlit("VACATION");
            reveal_strlit("HEAT_PUMP");
            assert("VACATION"@.len() != "HEAT_PUMP"@.len());
        }
        let target = if str_eq(evaluate(ac == 0, soc_low, r.irradiance_low, reached), "HEAT_PUMP") {
            WaterHeaterMode::HeatPump
        } else {
            WaterHeaterMode::Vacation
        };
        if r.actual_mode == target {
            self.consecutive_fails = 0;
            return WaterHeaterDecision::Keep;
        }
        let can_change = match self.last_change {
            Some(t) => {
                let d: i128 = now as i128 - t as i128;
                let elapsed: i128 = if d >= 0 {
                    d
                } else {
                    d + 0x1_0000_0000_0000_0000
                };
                elapsed >= timing.mode_change_min_secs as i128
            },
            None => true,
        };
        if !can_change {
            WaterHeaterDecision::Cooldown(target)
        } else {
            WaterHeaterDecision::Send(target)
        }
    }

    /// Records the outcome of a mode change sent at `now`; returns whether
    /// failures have piled up (three in a row or more: the heater's cloud
    /// service may be unreachable).
    pub fn on_send_result(&mut self, ok: bool, now: i64) -> (alarm: bool)
        requires
            !ok ==> old(self).consecutive_fails < u32::MAX,
        ensures
            ok ==> *final(self) == (WaterHeaterControl {
                consecutive_fails: 0,
                last_change: Some(now),
                ..*old(self)
            }) && !alarm,
            !ok ==> *final(self) == (WaterHeaterControl {
                consecutive_fails: (old(self).consecutive_fails + 1) as u32,
                ..*old(self)
            }) && alarm == (final(self).consecutive_fails >= 3),
    {
        if ok {
            self.consecutive_fails = 0;
            self.last_change = Some(now);
            false
        } else {
            self.consecutive_fails = self.consecutive_fails + 1;
            self.consecutive_fails >= 3
        }
    }
}

/// A change of mode is sent only when the heater is not already in the
/// targeted mode and the last change is at least the minimum time old.
pub proof fn lemma_send_respects_spacing(
    c: WaterHeaterControl,
    t: WaterHeaterTiming,
    r: WaterHeaterReadings,
    now: i64,
    m: WaterHeaterMode,
)
    requires
        water_heater_tick(c, t, r, now).1 == WaterHeaterDecision::Send(m),
    ensures
        r.actual_mode != m,
        may_change(c.last_change, now, t.mode_change_min_secs),
        r.ac_ignore is Some && r.soc_low is Some,
{
}

/// Heat-pump mode is targeted only with the grid off, enough charge, enough
/// sun and a tank not yet full.
pub proof fn lemma_heat_pump_needs_all_clear(
    c: WaterHeaterControl,
    t: WaterHeaterTiming,
    r: WaterHeaterReadings,
    now: i64,
)
    requires
        water_heater_tick(c, t, r, now).1 == WaterHeaterDecision::Send(WaterHeaterMode::HeatPump)
            || water_heater_tick(c, t, r, now).1 == WaterHeaterDecision::Cooldown(
            WaterHeaterMode::HeatPump,
        ),
    ensures
        r.ac_ignore != Some(0i64),
        r.soc_low == Some(false),
        !r.irradiance_low,
        !held_at_max(c.temp_max_since, r.tank_at_max, now, t.temp_max_hold_secs).1,
{
}

/// The tank counts as full only after it has been seen at its maximum for
/// the hold time, without a reading below it in between: a reading below
/// the maximum restarts the tracking.
pub proof fn lemma_tank_full_needs_hold(since: Option<i64>, at_max: bool, now: i64, hold: u64)
    ensures
        !at_max ==> held_at_max(since, at_max, now, hold) == (None::<i64>, false),
        held_at_max(since, at_max, now, hold).1 && hold > 0 ==> (since matches Some(s) && now - s
            >= hold),
{
}

} // verus!
