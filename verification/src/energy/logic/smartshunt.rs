//! Battery readings: which topic feeds which battery reading (the SmartShunt
//! first, the system and inverter aggregates only while the shunt is
//! silent), the daily baselines of the shunt's energy counters, and the
//! window over which the current is integrated into amp-hours. Times are
//! epoch milliseconds.
use vstd::prelude::*;
use crate::energy::topics::{device_topic, device_topic_of};
use crate::text::{contains_str, dec_digits, ends_with, is_suffix, occurs_at, str_eq};

verus! {

#[derive(Debug, Default)]
pub struct BaselineDecision {
    pub capture_charged: bool,
    pub capture_discharged: bool,
}

/// Capture each start-of-day baseline on a new calendar day or when none is
/// stored yet; charged and discharged are decided independently.
pub fn baseline_decision(
    charged_new_day: bool,
    charged_baseline_absent: bool,
    discharged_new_day: bool,
    discharged_baseline_absent: bool,
) -> (d: BaselineDecision)
    ensures
        d.capture_charged == (charged_new_day || charged_baseline_absent),
        d.capture_discharged == (discharged_new_day || discharged_baseline_absent),
{
    BaselineDecision {
        capture_charged: charged_new_day || charged_baseline_absent,
        capture_discharged: discharged_new_day || discharged_baseline_absent,
    }
}

/// The SmartShunt's own topics.
#[derive(Debug, Clone)]
pub struct ShuntTopics {
    pub voltage: String,
    pub current: String,
    pub power: String,
    pub soc: String,
    pub time_to_go: String,
    pub state: String,
}

/// A battery reading and where it comes from.
#[derive(Debug, Clone, Copy, PartialEq, Eq, Structural)]
pub enum ShuntInput {
    Voltage,
    Current,
    Power,
    Soc,
    TimeToGo,
    State,
    /// Energy counters of the shunt (kWh).
    ChargedEnergy,
    DischargedEnergy,
    /// Aggregates of the system, used while the shunt is silent.
    SystemSoc,
    SystemCurrent,
    SystemState,
    SystemTimeToGo,
    /// DC voltage measured by the inverter, used while the shunt is silent.
    VebusVoltage,
}

/// What a received topic does to the battery readings.
#[derive(Debug, Clone, Copy, PartialEq, Eq, Structural)]
pub enum ShuntRoute {
    /// Not a battery topic.
    Ignore,
    /// A fallback topic while the shunt's own value is fresh: nothing changes.
    Held,
    /// Update this reading.
    Apply(ShuntInput),
}

/// How long a shunt value is preferred to the aggregates.
pub const SHUNT_STALE_AFTER_MS: i64 = 10_000;

/// `t` contains `part`.
pub open spec fn has(t: Seq<char>, part: Seq<char>) -> bool {
    exists|i: int| occurs_at(t, part, i)
}

/// The shunt was heard from less than 10 s ago.
pub open spec fn shunt_fresh(last_seen: Option<i64>, now: i64) -> bool {
    match last_seen {
        Some(ts) => now - ts < SHUNT_STALE_AFTER_MS,
        None => false,
    }
}

/// A topic of the shunt itself.
pub open spec fn is_shunt_direct(ts: ShuntTopics, t: Seq<char>) -> bool {
    t == ts.voltage@ || t == ts.current@ || t == ts.power@ || t == ts.soc@ || t == ts.time_to_go@
        || t == ts.state@
}

/// Route of topic `t`: the shunt's own readings and counters always apply;
/// the system and inverter aggregates apply only while the shunt is stale.
pub open spec fn shunt_route(ts: ShuntTopics, t: Seq<char>, fresh: bool) -> ShuntRoute {
    let sys = has(t, "/system/0/"@);
    let is_sys_soc = is_suffix("Battery/Soc"@, t) && sys;
    let is_sys_current = is_suffix("Battery/Current"@, t) && sys;
    let is_sys_state = is_suffix("Battery/State"@, t) && sys;
    let is_sys_ttg = is_suffix("Battery/TimeToGo"@, t) && sys;
    let is_vebus_v = is_suffix("/Dc/0/Voltage"@, t) && has(t, "/vebus/"@);
    let battery = has(t, "/battery/"@);
    let is_charged = is_suffix("/History/ChargedEnergy"@, t) && battery;
    let is_discharged = is_suffix("/History/DischargedEnergy"@, t) && battery;
    let is_shunt = is_shunt_direct(ts, t) || is_charged || is_discharged;
    if !is_shunt && !is_sys_soc && !is_sys_current && !is_sys_state && !is_sys_ttg && !is_vebus_v {
        ShuntRoute::Ignore
    } else if t == ts.voltage@ {
        ShuntRoute::Apply(ShuntInput::Voltage)
    } else if t == ts.current@ {
        ShuntRoute::Apply(ShuntInput::Current)
    } else if t == ts.power@ {
        ShuntRoute::Apply(ShuntInput::Power)
    } else if t == ts.soc@ {
        ShuntRoute::Apply(ShuntInput::Soc)
    } else if t == ts.time_to_go@ {
        ShuntRoute::Apply(ShuntInput::TimeToGo)
    } else if t == ts.state@ {
        ShuntRoute::Apply(ShuntInput::State)
    } else if is_charged {
        ShuntRoute::Apply(ShuntInput::ChargedEnergy)
    } else if is_discharged {
        ShuntRoute::Apply(ShuntInput::DischargedEnergy)
    } else if is_sys_soc && !fresh {
        ShuntRoute::Apply(ShuntInput::SystemSoc)
    } else if is_sys_current && !fresh {
        ShuntRoute::Apply(ShuntInput::SystemCurrent)
    } else if is_sys_state && !fresh {
        ShuntRoute::Apply(ShuntInput::SystemState)
    } else if is_sys_ttg && !fresh {
        ShuntRoute::Apply(ShuntInput::SystemTimeToGo)
    } else if is_vebus_v && !fresh {
        ShuntRoute::Apply(ShuntInput::VebusVoltage)
    } else {
        ShuntRoute::Held
    }
}

impl ShuntTopics {
    pub fn new(pid: &str, shunt: u32) -> (ts: Self)
        ensures
            ts.voltage@ == device_topic_of(pid@, "battery"@, shunt as nat, "Dc/0/Voltage"@),
            ts.current@ == device_topic_of(pid@, "battery"@, shunt as nat, "Dc/0/Current"@),
            ts.power@ == device_topic_of(pid@, "battery"@, shunt as nat, "Dc/0/Power"@),
            ts.soc@ == device_topic_of(pid@, "battery"@, shunt as nat, "Soc"@),
            ts.time_to_go@ == device_topic_of(pid@, "battery"@, shunt as nat, "TimeToGo"@),
            ts.state@ == device_topic_of(pid@, "battery"@, shunt as nat, "State"@),
    {
        ShuntTopics {
            voltage: device_topic(pid, "battery", shunt, "Dc/0/Voltage"),
            current: device_topic(pid, "battery", shunt, "Dc/0/Current"),
            power: device_topic(pid, "battery", shunt, "Dc/0/Power"),
            soc: device_topic(pid, "battery", shunt, "Soc"),
            time_to_go: device_topic(pid, "battery", shunt, "TimeToGo"),
            state: device_topic(pid, "battery", shunt, "State"),
        }
    }
}

/// When the shunt was last heard from.
#[derive(Debug, Clone, Copy, PartialEq, Eq, Structural)]
pub struct ShuntFreshness {
    pub last_seen: Option<i64>,
}

impl ShuntFreshness {
    pub fn new() -> (f: Self)
        ensures
            f.last_seen is None,
    {
        ShuntFreshness { last_seen: None }
    }

    /// Route of a topic received at `now`; a topic of the shunt itself marks
    /// it as heard from.
    pub fn route(&mut self, ts: &ShuntTopics, topic: &str, now: i64) -> (r: ShuntRoute)
        ensures
            r == shunt_route(*ts, topic@, shunt_fresh(old(self).last_seen, now)),
            final(self).last_seen == if is_shunt_direct(*ts, topic@) {
                Some(now)
            } else {
                old(self).last_seen
            },
    {
        let direct = str_eq(topic, ts.voltage.as_str()) || str_eq(topic, ts.current.as_str())
            || str_eq(topic, ts.power.as_str()) || str_eq(topic, ts.soc.as_str()) || str_eq(
            topic,
            ts.time_to_go.as_str(),
        ) || str_eq(topic, ts.state.as_str());
        let sys = contains_str(topic, "/system/0/");
        let is_sys_soc = ends_with(topic, "Battery/Soc") && sys;
        let is_sys_current = ends_with(topic, "Battery/Current") && sys;
        let is_sys_state = ends_with(topic, "Battery/State") && sys;
        let is_sys_ttg = ends_with(topic, "Battery/TimeToGo") && sys;
        let is_vebus_v = ends_with(topic, "/Dc/0/Voltage") && contains_str(topic, "/vebus/");
        let battery = contains_str(topic, "/battery/");
        let is_charged = ends_with(topic, "/History/ChargedEnergy") && battery;
        let is_discharged = ends_with(topic, "/History/DischargedEnergy") && battery;
        let is_shunt = direct || is_charged || is_discharged;
        if !is_shunt && !is_sys_soc && !is_sys_current && !is_sys_state && !is_sys_ttg
            && !is_vebus_v {
            return ShuntRoute::Ignore;
        }
        let fresh = match self.last_seen {
            Some(ts) => (now as i128) - (ts as i128) < SHUNT_STALE_AFTER_MS as i128,
            None => false,
        };
        if direct {
            self.last_seen = Some(now);
        }
        if str_eq(topic, ts.voltage.as_str()) {
            ShuntRoute::Apply(ShuntInput::Voltage)
        } else if str_eq(topic, ts.current.as_str()) {
            ShuntRoute::Apply(ShuntInput::Current)
        } else if str_eq(topic, ts.power.as_str()) {
            ShuntRoute::Apply(ShuntInput::Power)
        } else if str_eq(topic, ts.soc.as_str()) {
            ShuntRoute::Apply(ShuntInput::Soc)
        } else if str_eq(topic, ts.time_to_go.as_str()) {
            ShuntRoute::Apply(ShuntInput::TimeToGo)
        } else if str_eq(topic, ts.state.as_str()) {
            ShuntRoute::Apply(ShuntInput::State)
        } else if is_charged {
            ShuntRoute::Apply(ShuntInput::ChargedEnergy)
        } else if is_discharged {
            ShuntRoute::Apply(ShuntInput::DischargedEnergy)
        } else if is_sys_soc && !fresh {
            ShuntRoute::Apply(ShuntInput::SystemSoc)
        } else if is_sys_current && !fresh {
            ShuntRoute::Apply(ShuntInput::SystemCurrent)
        } else if is_sys_state && !fresh {
            ShuntRoute::Apply(ShuntInput::SystemState)
        } else if is_sys_ttg && !fresh {
            ShuntRoute::Apply(ShuntInput::SystemTimeToGo)
        } else if is_vebus_v && !fresh {
            ShuntRoute::Apply(ShuntInput::VebusVoltage)
        } else {
            ShuntRoute::Held
        }
    }
}

/// While the shunt is fresh no aggregate overrides a battery reading, and a
/// topic of the shunt itself always applies.
pub proof fn lemma_shunt_has_priority(ts: ShuntTopics, t: Seq<char>, fresh: bool)
    ensures
        fresh ==> match shunt_route(ts, t, fresh) {
            ShuntRoute::Apply(i) => i != ShuntInput::SystemSoc && i != ShuntInput::SystemCurrent && i
                != ShuntInput::SystemState && i != ShuntInput::SystemTimeToGo && i
                != ShuntInput::VebusVoltage,
            _ => true,
        },
        is_shunt_direct(ts, t) ==> shunt_route(ts, t, fresh) is Apply,
{
}

/// The reading that a path under the shunt's own device names.
pub open spec fn reading_of_path(path: Seq<char>) -> Option<ShuntInput> {
    if path == "Dc/0/Voltage"@ {
        Some(ShuntInput::Voltage)
    } else if path == "Dc/0/Current"@ {
        Some(ShuntInput::Current)
    } else if path == "Dc/0/Power"@ {
        Some(ShuntInput::Power)
    } else if path == "Soc"@ {
        Some(ShuntInput::Soc)
    } else if path == "TimeToGo"@ {
        Some(ShuntInput::TimeToGo)
    } else if path == "State"@ {
        Some(ShuntInput::State)
    } else {
        None
    }
}

/// The six topics of the shunt, as [`ShuntTopics::new`] builds them.
pub open spec fn topics_of_shunt(ts: ShuntTopics, pid: Seq<char>, n: nat) -> bool {
    &&& ts.voltage@ == device_topic_of(pid, "battery"@, n, "Dc/0/Voltage"@)
    &&& ts.current@ == device_topic_of(pid, "battery"@, n, "Dc/0/Current"@)
    &&& ts.power@ == device_topic_of(pid, "battery"@, n, "Dc/0/Power"@)
    &&& ts.soc@ == device_topic_of(pid, "battery"@, n, "Soc"@)
    &&& ts.time_to_go@ == device_topic_of(pid, "battery"@, n, "TimeToGo"@)
    &&& ts.state@ == device_topic_of(pid, "battery"@, n, "State"@)
}

proof fn lemma_same_device_same_path(pid: Seq<char>, n: nat, p1: Seq<char>, p2: Seq<char>)
    requires
        device_topic_of(pid, "battery"@, n, p1) == device_topic_of(pid, "battery"@, n, p2),
    ensures
        p1 == p2,
{
    let pre = seq!['N', '/'] + pid + seq!['/'] + "battery"@ + seq!['/'] + dec_digits(n) + seq!['/'];
    assert(device_topic_of(pid, "battery"@, n, p1) =~= pre + p1);
    assert(device_topic_of(pid, "battery"@, n, p2) =~= pre + p2);
    assert(p1 =~= (pre + p1).skip(pre.len() as int));
    assert(p2 =~= (pre + p2).skip(pre.len() as int));
}

/// Each topic of the shunt feeds the reading its path names, fresh or not:
/// the voltage topic the voltage, the current topic the current, and so on.
pub proof fn lemma_shunt_topic_feeds_its_reading(
    ts: ShuntTopics,
    pid: Seq<char>,
    n: nat,
    path: Seq<char>,
    fresh: bool,
)
    requires
        topics_of_shunt(ts, pid, n),
        reading_of_path(path) is Some,
    ensures
        shunt_route(ts, device_topic_of(pid, "battery"@, n, path), fresh) == ShuntRoute::Apply(
            reading_of_path(path).unwrap(),
        ),
{
    reveal_strlit("Dc/0/Voltage");
    reveal_strlit("Dc/0/Current");
    reveal_strlit("Dc/0/Power");
    reveal_strlit("Soc");
    reveal_strlit("TimeToGo");
    reveal_strlit("State");
    let t = device_topic_of(pid, "battery"@, n, path);
    let v = "Dc/0/Voltage"@;
    let c = "Dc/0/Current"@;
    let w = "Dc/0/Power"@;
    let so = "Soc"@;
    let tg = "TimeToGo"@;
    let st = "State"@;
    assert(v[5] != c[5]);
    if t == ts.voltage@ {
        lemma_same_device_same_path(pid, n, path, v);
    }
    if t == ts.current@ {
        lemma_same_device_same_path(pid, n, path, c);
    }
    if t == ts.power@ {
        lemma_same_device_same_path(pid, n, path, w);
    }
    if t == ts.soc@ {
        lemma_same_device_same_path(pid, n, path, so);
    }
    if t == ts.time_to_go@ {
        lemma_same_device_same_path(pid, n, path, tg);
    }
    if t == ts.state@ {
        lemma_same_device_same_path(pid, n, path, st);
    }
}

/// Topic of a battery aggregate of the system service:
/// `N/<portal>/system/0/Dc/Battery/<name>`.
pub open spec fn system_topic(pid: Seq<char>, name: Seq<char>) -> Seq<char> {
    seq!['N', '/'] + pid + "/system/0/Dc/Battery/"@ + name
}

/// The aggregate reading that a system battery topic names.
pub open spec fn aggregate_of_name(name: Seq<char>) -> Option<ShuntInput> {
    if name == "Soc"@ {
        Some(ShuntInput::SystemSoc)
    } else if name == "Current"@ {
        Some(ShuntInput::SystemCurrent)
    } else if name == "State"@ {
        Some(ShuntInput::SystemState)
    } else if name == "TimeToGo"@ {
        Some(ShuntInput::SystemTimeToGo)
    } else {
        None
    }
}

proof fn lemma_suffix_char(p: Seq<char>, t: Seq<char>, k: int)
    requires
        is_suffix(p, t),
        1 <= k <= p.len(),
    ensures
        t[t.len() - k] == p[p.len() - k],
{
    assert(t.skip(t.len() - p.len())[p.len() - k] == t[t.len() - k]);
}

/// A battery aggregate of the system feeds the reading it names only while
/// the shunt is silent; while the shunt is fresh it changes nothing.
pub proof fn lemma_aggregate_only_while_shunt_silent(
    ts: ShuntTopics,
    pid: Seq<char>,
    n: nat,
    name: Seq<char>,
    fresh: bool,
)
    requires
        topics_of_shunt(ts, pid, n),
        aggregate_of_name(name) is Some,
    ensures
        shunt_route(ts, system_topic(pid, name), fresh) == if fresh {
            ShuntRoute::Held
        } else {
            ShuntRoute::Apply(aggregate_of_name(name).unwrap())
        },
{
    reveal_strlit("/system/0/Dc/Battery/");
    reveal_strlit("/system/0/");
    reveal_strlit("battery");
    reveal_strlit("Soc");
    reveal_strlit("Current");
    reveal_strlit("State");
    reveal_strlit("TimeToGo");
    reveal_strlit("Battery/Soc");
    reveal_strlit("Battery/Current");
    reveal_strlit("Battery/State");
    reveal_strlit("Battery/TimeToGo");
    reveal_strlit("/Dc/0/Voltage");
    reveal_strlit("/History/ChargedEnergy");
    reveal_strlit("/History/DischargedEnergy");
    let t = system_topic(pid, name);
    let k = pid.len() as int;
    // `/system/0/` occurs right after the portal id.
    assert(t.subrange(2 + k, 2 + k + 10) =~= "/system/0/"@);
    assert(occurs_at(t, "/system/0/"@, 2 + k));
    // Not one of the shunt's own topics: those have `battery` where `t` has
    // `system`.
    assert(t[3 + k] == 's');
    assert forall|p: Seq<char>| #[trigger] device_topic_of(pid, "battery"@, n, p)[3 + k] == 'b' by {}
    assert(t != ts.voltage@ && t != ts.current@ && t != ts.power@) by {
        assert(ts.voltage@[3 + k] == 'b');
        assert(ts.current@[3 + k] == 'b');
        assert(ts.power@[3 + k] == 'b');
    }
    assert(t != ts.soc@ && t != ts.time_to_go@ && t != ts.state@) by {
        assert(ts.soc@[3 + k] == 'b');
        assert(ts.time_to_go@[3 + k] == 'b');
        assert(ts.state@[3 + k] == 'b');
    }
    let tl = t.len() as int;
    assert(t[tl - 1] == name[name.len() - 1]);
    assert(name.len() >= 3);
    assert(t[tl - 2] == name[name.len() - 2]);
    if is_suffix("/History/ChargedEnergy"@, t) {
        lemma_suffix_char("/History/ChargedEnergy"@, t, 1);
    }
    if is_suffix("/History/DischargedEnergy"@, t) {
        lemma_suffix_char("/History/DischargedEnergy"@, t, 1);
    }
    if is_suffix("/Dc/0/Voltage"@, t) {
        lemma_suffix_char("/Dc/0/Voltage"@, t, 1);
        lemma_suffix_char("/Dc/0/Voltage"@, t, 2);
    }
    if is_suffix("Battery/Soc"@, t) {
        lemma_suffix_char("Battery/Soc"@, t, 1);
    }
    if is_suffix("Battery/Current"@, t) {
        lemma_suffix_char("Battery/Current"@, t, 1);
    }
    if is_suffix("Battery/State"@, t) {
        lemma_suffix_char("Battery/State"@, t, 1);
        lemma_suffix_char("Battery/State"@, t, 2);
    }
    if is_suffix("Battery/TimeToGo"@, t) {
        lemma_suffix_char("Battery/TimeToGo"@, t, 1);
    }
    let base = seq!['N', '/'] + pid + "/system/0/Dc/Battery/"@;
    assert(t == base + name);
    if name == "Soc"@ {
        assert(t.skip(tl - 11) =~= "Battery/Soc"@);
    } else if name == "Current"@ {
        assert(t.skip(tl - 15) =~= "Battery/Current"@);
    } else if name == "State"@ {
        assert(t.skip(tl - 13) =~= "Battery/State"@);
    } else {
        assert(t.skip(tl - 16) =~= "Battery/TimeToGo"@);
    }
}

/// The shunt's energy counters feed their own readings, fresh or not: the
/// charged-energy topic the charged energy, the discharged-energy topic the
/// discharged energy.
pub proof fn lemma_energy_counters_feed_their_reading(
    ts: ShuntTopics,
    pid: Seq<char>,
    n: nat,
    charged: bool,
    fresh: bool,
)
    requires
        topics_of_shunt(ts, pid, n),
    ensures
        shunt_route(
            ts,
            device_topic_of(
                pid,
                "battery"@,
                n,
                if charged {
                    "History/ChargedEnergy"@
                } else {
                    "History/DischargedEnergy"@
                },
            ),
            fresh,
        ) == ShuntRoute::Apply(
            if charged {
                ShuntInput::ChargedEnergy
            } else {
                ShuntInput::DischargedEnergy
            },
        ),
{
    reveal_strlit("battery");
    reveal_strlit("History/ChargedEnergy");
    reveal_strlit("History/DischargedEnergy");
    reveal_strlit("/History/ChargedEnergy");
    reveal_strlit("/History/DischargedEnergy");
    reveal_strlit("/battery/");
    reveal_strlit("Dc/0/Voltage");
    reveal_strlit("Dc/0/Current");
    reveal_strlit("Dc/0/Power");
    reveal_strlit("Soc");
    reveal_strlit("TimeToGo");
    reveal_strlit("State");
    let path = if charged {
        "History/ChargedEnergy"@
    } else {
        "History/DischargedEnergy"@
    };
    let t = device_topic_of(pid, "battery"@, n, path);
    let k = pid.len() as int;
    assert(t.subrange(2 + k, 2 + k + 9) =~= "/battery/"@);
    assert(occurs_at(t, "/battery/"@, 2 + k));
    let tl = t.len() as int;
    let pre = seq!['N', '/'] + pid + seq!['/'] + "battery"@ + seq!['/'] + dec_digits(n) + seq!['/'];
    assert(t =~= pre + path);
    if charged {
        assert(t.skip(tl - 22) =~= "/History/ChargedEnergy"@);
    } else {
        assert(t.skip(tl - 25) =~= "/History/DischargedEnergy"@);
        assert(t[tl - 13] == 'c');
        if is_suffix("/History/ChargedEnergy"@, t) {
            lemma_suffix_char("/History/ChargedEnergy"@, t, 13);
        }
    }
    if t == ts.voltage@ {
        lemma_same_device_same_path(pid, n, path, "Dc/0/Voltage"@);
    }
    if t == ts.current@ {
        lemma_same_device_same_path(pid, n, path, "Dc/0/Current"@);
    }
    if t == ts.power@ {
        lemma_same_device_same_path(pid, n, path, "Dc/0/Power"@);
    }
    if t == ts.soc@ {
        lemma_same_device_same_path(pid, n, path, "Soc"@);
    }
    if t == ts.time_to_go@ {
        lemma_same_device_same_path(pid, n, path, "TimeToGo"@);
    }
    if t == ts.state@ {
        lemma_same_device_same_path(pid, n, path, "State"@);
    }
}

/// The DC voltage measured by an inverter feeds the battery voltage only
/// while the shunt is silent.
pub proof fn lemma_inverter_voltage_only_while_shunt_silent(
    ts: ShuntTopics,
    pid: Seq<char>,
    n: nat,
    m: nat,
    fresh: bool,
)
    requires
        topics_of_shunt(ts, pid, n),
    ensures
        shunt_route(ts, device_topic_of(pid, "vebus"@, m, "Dc/0/Voltage"@), fresh) == if fresh {
            ShuntRoute::Held
        } else {
            ShuntRoute::Apply(ShuntInput::VebusVoltage)
        },
{
    reveal_strlit("vebus");
    reveal_strlit("battery");
    reveal_strlit("/vebus/");
    reveal_strlit("Dc/0/Voltage");
    reveal_strlit("/Dc/0/Voltage");
    reveal_strlit("Battery/Soc");
    reveal_strlit("Battery/Current");
    reveal_strlit("Battery/State");
    reveal_strlit("Battery/TimeToGo");
    reveal_strlit("/History/ChargedEnergy");
    reveal_strlit("/History/DischargedEnergy");
    let t = device_topic_of(pid, "vebus"@, m, "Dc/0/Voltage"@);
    let k = pid.len() as int;
    let tl = t.len() as int;
    let pre = seq!['N', '/'] + pid + seq!['/'] + "vebus"@ + seq!['/'] + dec_digits(m);
    assert(t =~= pre + "/Dc/0/Voltage"@);
    assert(t.skip(tl - 13) =~= "/Dc/0/Voltage"@);
    assert(t.subrange(2 + k, 2 + k + 7) =~= "/vebus/"@);
    assert(occurs_at(t, "/vebus/"@, 2 + k));
    assert(t[3 + k] == 'v');
    assert(t != ts.voltage@ && t != ts.current@ && t != ts.power@) by {
        assert(ts.voltage@[3 + k] == 'b');
        assert(ts.current@[3 + k] == 'b');
        assert(ts.power@[3 + k] == 'b');
    }
    assert(t != ts.soc@ && t != ts.time_to_go@ && t != ts.state@) by {
        assert(ts.soc@[3 + k] == 'b');
        assert(ts.time_to_go@[3 + k] == 'b');
        assert(ts.state@[3 + k] == 'b');
    }
    assert(t[tl - 1] == 'e' && t[tl - 2] == 'g');
    if is_suffix("/History/ChargedEnergy"@, t) {
        lemma_suffix_char("/History/ChargedEnergy"@, t, 1);
    }
    if is_suffix("/History/DischargedEnergy"@, t) {
        lemma_suffix_char("/History/DischargedEnergy"@, t, 1);
    }
    if is_suffix("Battery/Soc"@, t) {
        lemma_suffix_char("Battery/Soc"@, t, 1);
    }
    if is_suffix("Battery/Current"@, t) {
        lemma_suffix_char("Battery/Current"@, t, 1);
    }
    if is_suffix("Battery/State"@, t) {
        lemma_suffix_char("Battery/State"@, t, 2);
    }
    if is_suffix("Battery/TimeToGo"@, t) {
        lemma_suffix_char("Battery/TimeToGo"@, t, 1);
    }
}

/// Amp-hour integration at `now`, given the day of `now`: the counters
/// restart on a new day, and a current sample counts over the time since
/// the previous sample when it is positive and under 10 min.
pub open spec fn ah_interval(last_day: i32, last_ts: Option<i64>, day: i32, now: i64) -> (bool, Option<int>) {
    let reset = last_day != day;
    let delta = match last_ts {
        Some(prev) => if 0 < now - prev < 600_000 {
            Some(now - prev)
        } else {
            None
        },
        None => None,
    };
    (reset, delta)
}

/// Whether the day's amp-hour counters restart, and the time (ms) over which
/// the current sample counts, if it counts.
pub fn ah_step(last_day: i32, last_ts: Option<i64>, day: i32, now: i64) -> (r: (bool, Option<i64>))
    ensures
        r.0 == ah_interval(last_day, last_ts, day, now).0,
        match r.1 {
            Some(d) => ah_interval(last_day, last_ts, day, now).1 == Some(d as int),
            None => ah_interval(last_day, last_ts, day, now).1 is None,
        },
{
    let reset = last_day != day;
    let delta = match last_ts {
        Some(prev) => {
            let d: i128 = now as i128 - prev as i128;
            if 0 < d && d < 600_000 {
                Some(d as i64)
            } else {
                None
            }
        },
        None => None,
    };
    (reset, delta)
}

} // verus!
