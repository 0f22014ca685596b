//! Solar production: the topics read from the Venus OS broker and which
//! reading each one carries, and the daily baseline of the PV inverter's
//! energy counter.
use vstd::prelude::*;
use crate::energy::topics::{device_topic, device_topic_of};
use crate::text::{
    chars_of, first_at, parse_i32_radix, parse_signed, str_eq, string_of, trim, trim_window,
};

verus! {

#[derive(Debug, Default)]
pub struct BaselineDecision {
    /// Clear the stored baseline (new calendar day).
    pub reset: bool,
    /// Capture the current kWh counter as the new start-of-day baseline.
    pub capture: bool,
}

/// A new calendar day resets and recaptures; within the day an absent baseline
/// is captured without reset.
pub fn baseline_decision(new_day: bool, baseline_absent: bool) -> (d: BaselineDecision)
    ensures
        d.reset == new_day,
        d.capture == (new_day || baseline_absent),
{
    BaselineDecision { reset: new_day, capture: new_day || baseline_absent }
}

/// Reading carried by a solar topic.
#[derive(Debug, Clone, Copy, PartialEq, Eq, Structural)]
pub enum SolarField {
    Mppt1Power,
    Mppt2Power,
    /// Sum of the chargers' PV power, as the system reports it.
    DcPvPower,
    PvInverterPower,
    /// Energy counter of the PV inverter (kWh).
    PvInverterEnergy,
    Mppt1Yield,
    Mppt2Yield,
    Mppt1State,
    Mppt2State,
    Mppt1PvVoltage,
    Mppt2PvVoltage,
    Mppt1DcCurrent,
    Mppt2DcCurrent,
    /// House consumption on the inverter's AC output.
    Consumption,
}

/// The solar topics of a portal, for two chargers and a PV inverter.
#[derive(Debug, Clone)]
pub struct SolarTopics {
    pub mppt1_power: String,
    pub mppt2_power: String,
    pub dc_pv: String,
    pub pv_power: String,
    pub pv_energy: String,
    pub mppt1_yield: String,
    pub mppt2_yield: String,
    pub mppt1_state: String,
    pub mppt2_state: String,
    pub mppt1_pv_v: String,
    pub mppt2_pv_v: String,
    pub mppt1_dc_i: String,
    pub mppt2_dc_i: String,
    pub consumption: String,
}

/// The topics of portal `pid` for chargers `m1`, `m2` and PV inverter `pv`.
pub open spec fn solar_topics_are(ts: SolarTopics, pid: Seq<char>, m1: nat, m2: nat, pv: nat) -> bool {
    &&& ts.mppt1_power@ == device_topic_of(pid, "solarcharger"@, m1, "Yield/Power"@)
    &&& ts.mppt2_power@ == device_topic_of(pid, "solarcharger"@, m2, "Yield/Power"@)
    &&& ts.dc_pv@ == device_topic_of(pid, "system"@, 0, "Dc/Pv/Power"@)
    &&& ts.pv_power@ == device_topic_of(pid, "pvinverter"@, pv, "Ac/Power"@)
    &&& ts.pv_energy@ == device_topic_of(pid, "pvinverter"@, pv, "Ac/Energy/Forward"@)
    &&& ts.mppt1_yield@ == device_topic_of(pid, "solarcharger"@, m1, "History/Daily/0/Yield"@)
    &&& ts.mppt2_yield@ == device_topic_of(pid, "solarcharger"@, m2, "History/Daily/0/Yield"@)
    &&& ts.mppt1_state@ == device_topic_of(pid, "solarcharger"@, m1, "State"@)
    &&& ts.mppt2_state@ == device_topic_of(pid, "solarcharger"@, m2, "State"@)
    &&& ts.mppt1_pv_v@ == device_topic_of(pid, "solarcharger"@, m1, "Pv/V"@)
    &&& ts.mppt2_pv_v@ == device_topic_of(pid, "solarcharger"@, m2, "Pv/V"@)
    &&& ts.mppt1_dc_i@ == device_topic_of(pid, "solarcharger"@, m1, "Dc/0/Current"@)
    &&& ts.mppt2_dc_i@ == device_topic_of(pid, "solarcharger"@, m2, "Dc/0/Current"@)
    &&& ts.consumption@ == device_topic_of(pid, "system"@, 0, "Ac/ConsumptionOnOutput/L1/Power"@)
}

/// Reading carried by topic `t`: the first of the topics, in the order
/// listed, that `t` is.
pub open spec fn solar_field_of(ts: SolarTopics, t: Seq<char>) -> Option<SolarField> {
    if t == ts.mppt1_power@ {
        Some(SolarField::Mppt1Power)
    } else if t == ts.mppt2_power@ {
        Some(SolarField::Mppt2Power)
    } else if t == ts.dc_pv@ {
        Some(SolarField::DcPvPower)
    } else if t == ts.pv_power@ {
        Some(SolarField::PvInverterPower)
    } else if t == ts.pv_energy@ {
        Some(SolarField::PvInverterEnergy)
    } else if t == ts.mppt1_yield@ {
        Some(SolarField::Mppt1Yield)
    } else if t == ts.mppt2_yield@ {
        Some(SolarField::Mppt2Yield)
    } else if t == ts.mppt1_state@ {
        Some(SolarField::Mppt1State)
    } else if t == ts.mppt2_state@ {
        Some(SolarField::Mppt2State)
    } else if t == ts.mppt1_pv_v@ {
        Some(SolarField::Mppt1PvVoltage)
    } else if t == ts.mppt2_pv_v@ {
        Some(SolarField::Mppt2PvVoltage)
    } else if t == ts.mppt1_dc_i@ {
        Some(SolarField::Mppt1DcCurrent)
    } else if t == ts.mppt2_dc_i@ {
        Some(SolarField::Mppt2DcCurrent)
    } else if t == ts.consumption@ {
        Some(SolarField::Consumption)
    } else {
        None
    }
}

impl SolarTopics {
    pub fn new(pid: &str, m1: u32, m2: u32, pv: u32) -> (ts: Self)
        ensures
            solar_topics_are(ts, pid@, m1 as nat, m2 as nat, pv as nat),
    {
        SolarTopics {
            mppt1_power: device_topic(pid, "solarcharger", m1, "Yield/Power"),
            mppt2_power: device_topic(pid, "solarcharger", m2, "Yield/Power"),
            dc_pv: device_topic(pid, "system", 0, "Dc/Pv/Power"),
            pv_power: device_topic(pid, "pvinverter", pv, "Ac/Power"),
            pv_energy: device_topic(pid, "pvinverter", pv, "Ac/Energy/Forward"),
            mppt1_yield: device_topic(pid, "solarcharger", m1, "History/Daily/0/Yield"),
            mppt2_yield: device_topic(pid, "solarcharger", m2, "History/Daily/0/Yield"),
            mppt1_state: device_topic(pid, "solarcharger", m1, "State"),
            mppt2_state: device_topic(pid, "solarcharger", m2, "State"),
            mppt1_pv_v: device_topic(pid, "solarcharger", m1, "Pv/V"),
            mppt2_pv_v: device_topic(pid, "solarcharger", m2, "Pv/V"),
            mppt1_dc_i: device_topic(pid, "solarcharger", m1, "Dc/0/Current"),
            mppt2_dc_i: device_topic(pid, "solarcharger", m2, "Dc/0/Current"),
            consumption: device_topic(pid, "system", 0, "Ac/ConsumptionOnOutput/L1/Power"),
        }
    }

    /// Reading carried by a received topic; `None` for a topic of no solar
    /// reading.
    pub fn field(&self, topic: &str) -> (r: Option<SolarField>)
        ensures
            r == solar_field_of(*self, topic@),
    {
        if str_eq(topic, self.mppt1_power.as_str()) {
            Some(SolarField::Mppt1Power)
        } else if str_eq(topic, self.mppt2_power.as_str()) {
            Some(SolarField::Mppt2Power)
        } else if str_eq(topic, self.dc_pv.as_str()) {
            Some(SolarField::DcPvPower)
        } else if str_eq(topic, self.pv_power.as_str()) {
            Some(SolarField::PvInverterPower)
        } else if str_eq(topic, self.pv_energy.as_str()) {
            Some(SolarField::PvInverterEnergy)
        } else if str_eq(topic, self.mppt1_yield.as_str()) {
            Some(SolarField::Mppt1Yield)
        } else if str_eq(topic, self.mppt2_yield.as_str()) {
            Some(SolarField::Mppt2Yield)
        } else if str_eq(topic, self.mppt1_state.as_str()) {
            Some(SolarField::Mppt1State)
        } else if str_eq(topic, self.mppt2_state.as_str()) {
            Some(SolarField::Mppt2State)
        } else if str_eq(topic, self.mppt1_pv_v.as_str()) {
            Some(SolarField::Mppt1PvVoltage)
        } else if str_eq(topic, self.mppt2_pv_v.as_str()) {
            Some(SolarField::Mppt2PvVoltage)
        } else if str_eq(topic, self.mppt1_dc_i.as_str()) {
            Some(SolarField::Mppt1DcCurrent)
        } else if str_eq(topic, self.mppt2_dc_i.as_str()) {
            Some(SolarField::Mppt2DcCurrent)
        } else if str_eq(topic, self.consumption.as_str()) {
            Some(SolarField::Consumption)
        } else {
            None
        }
    }
}

/// The retained PV-inverter baseline `"<day>:<kWh>"` (day counted from the
/// common era) when it is of `today`: its kWh text, to be read by the
/// caller. An empty payload, one without a day (older format), an
/// unreadable day or another day's baseline gives `None`.
pub open spec fn retained_baseline_of(payload: Seq<char>, today: i32) -> Option<Seq<char>> {
    let t = trim(payload);
    if payload.len() == 0 || !(exists|i: int| first_at(t, ':', i)) {
        None
    } else {
        let c = choose|i: int| first_at(t, ':', i);
        match parse_signed(t.take(c), 10, i32::MAX as nat) {
            Some(d) => if d == today as int {
                Some(t.skip(c + 1))
            } else {
                None
            },
            None => None,
        }
    }
}

/// kWh text of the retained baseline of `today`, if the payload holds one.
pub fn retained_baseline(payload: &str, today: i32) -> (r: Option<String>)
    ensures
        match r {
            Some(k) => retained_baseline_of(payload@, today) == Some(k@),
            None => retained_baseline_of(payload@, today) is None,
        },
{
    if payload.unicode_len() == 0 {
        return None;
    }
    let all = chars_of(payload);
    let (a, b) = trim_window(&all, 0, all.len());
    proof {
        assert(all@.subrange(0, all@.len() as int) =~= payload@);
    }
    let mut i = a;
    while i < b && all[i] != ':'
        invariant
            a <= i <= b,
            b <= all@.len(),
            forall|k: int| a <= k < i ==> #[trigger] all@[k] != ':',
        decreases b - i,
    {
        i += 1;
    }
    let ghost t = all@.subrange(a as int, b as int);
    if i == b {
        proof {
            assert forall|j: int| !first_at(t, ':', j) by {
                if 0 <= j < t.len() {
                    assert(t[j] == all@[a + j]);
                }
            }
        }
        return None;
    }
    proof {
        assert(first_at(t, ':', i - a)) by {
            assert forall|k: int| 0 <= k < i - a implies #[trigger] t[k] != ':' by {
                assert(t[k] == all@[a + k]);
            }
        }
        assert forall|j: int| first_at(t, ':', j) implies j == i - a by {
            if j < i - a {
                assert(t[j] == ':');
            } else if j > i - a {
                assert(t[i - a] == ':');
            }
        }
    }
    let day_text = string_of(&all, a, i);
    let kwh_text = string_of(&all, i + 1, b);
    proof {
        assert(day_text@ =~= t.take(i - a));
        assert(kwh_text@ =~= t.skip(i - a + 1));
    }
    match parse_i32_radix(day_text.as_str(), 10) {
        Some(d) => if d == today {
            Some(kwh_text)
        } else {
            None
        },
        None => None,
    }
}

} // verus!
