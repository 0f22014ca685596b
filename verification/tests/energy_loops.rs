use daly_bms::energy::logic::inverter::{ac_power_source, ac_power_ready, inverter_field, AcPowerSource, InverterField};
use daly_bms::energy::logic::smartshunt::{ah_step, ShuntFreshness, ShuntInput, ShuntRoute, ShuntTopics};
use daly_bms::energy::config::LgThinqConfig;
use daly_bms::energy::lg_thinq::{base_headers, control_url, message_id, poller_start, state_url, PollerStart};
use daly_bms::energy::logic::solar_power::{retained_baseline, SolarField, SolarTopics};
use daly_bms::energy::logic::water_heater::{
    WaterHeaterControl, WaterHeaterDecision, WaterHeaterReadings, WaterHeaterTiming,
};
use daly_bms::energy::topics::device_topic;
use daly_bms::energy::types::WaterHeaterMode;

const TIMING: WaterHeaterTiming = WaterHeaterTiming { mode_change_min_secs: 900, temp_max_hold_secs: 600 };

fn readings(ac_ignore: Option<i64>, soc_low: Option<bool>, actual: WaterHeaterMode) -> WaterHeaterReadings {
    WaterHeaterReadings { tank_at_max: false, ac_ignore, soc_low, irradiance_low: false, actual_mode: actual }
}

#[test]
fn water_heater_skips_without_grid_flag_or_soc() {
    let mut c = WaterHeaterControl::new();
    assert_eq!(c.tick(TIMING, readings(None, Some(false), WaterHeaterMode::Vacation), 0), WaterHeaterDecision::Skip);
    assert_eq!(c.tick(TIMING, readings(Some(1), None, WaterHeaterMode::Vacation), 0), WaterHeaterDecision::Skip);
}

#[test]
fn water_heater_sends_then_waits_between_changes() {
    let mut c = WaterHeaterControl::new();
    // Grid off, enough charge and sun: heat pump wanted.
    let d = c.tick(TIMING, readings(Some(1), Some(false), WaterHeaterMode::Vacation), 1_000);
    assert_eq!(d, WaterHeaterDecision::Send(WaterHeaterMode::HeatPump));
    assert!(!c.on_send_result(true, 1_000));
    assert_eq!(c.last_change, Some(1_000));
    // Grid back 10 minutes later: vacation wanted but too soon.
    let d = c.tick(TIMING, readings(Some(0), Some(false), WaterHeaterMode::HeatPump), 1_600);
    assert_eq!(d, WaterHeaterDecision::Cooldown(WaterHeaterMode::Vacation));
    let d = c.tick(TIMING, readings(Some(0), Some(false), WaterHeaterMode::HeatPump), 1_900);
    assert_eq!(d, WaterHeaterDecision::Send(WaterHeaterMode::Vacation));
    // Already in the wanted mode.
    let d = c.tick(TIMING, readings(Some(0), Some(false), WaterHeaterMode::Vacation), 2_000);
    assert_eq!(d, WaterHeaterDecision::Keep);
}

#[test]
fn water_heater_counts_failed_sends() {
    let mut c = WaterHeaterControl::new();
    assert!(!c.on_send_result(false, 10));
    assert!(!c.on_send_result(false, 20));
    assert!(c.on_send_result(false, 30));
    assert_eq!((c.consecutive_fails, c.last_change), (3, None));
    c.tick(TIMING, readings(Some(1), Some(false), WaterHeaterMode::HeatPump), 40);
    assert_eq!(c.consecutive_fails, 0);
}

#[test]
fn water_heater_tank_full_after_hold() {
    let mut c = WaterHeaterControl::new();
    let mut r = readings(Some(1), Some(false), WaterHeaterMode::HeatPump);
    r.tank_at_max = true;
    assert_eq!(c.tick(TIMING, r, 0), WaterHeaterDecision::Keep);
    assert_eq!(c.temp_max_since, Some(0));
    assert_eq!(c.tick(TIMING, r, 599), WaterHeaterDecision::Keep);
    assert_eq!(c.tick(TIMING, r, 600), WaterHeaterDecision::Send(WaterHeaterMode::Vacation));
    r.tank_at_max = false;
    c.tick(TIMING, r, 700);
    assert_eq!(c.temp_max_since, None);
}

#[test]
fn venus_topics() {
    assert_eq!(device_topic("c0619ab", "solarcharger", 273, "Yield/Power"), "N/c0619ab/solarcharger/273/Yield/Power");
    let ts = SolarTopics::new("p", 273, 289, 32);
    assert_eq!(ts.dc_pv, "N/p/system/0/Dc/Pv/Power");
    assert_eq!(ts.pv_energy, "N/p/pvinverter/32/Ac/Energy/Forward");
    assert_eq!(ts.field("N/p/solarcharger/289/History/Daily/0/Yield"), Some(SolarField::Mppt2Yield));
    assert_eq!(ts.field("N/p/system/0/Ac/ConsumptionOnOutput/L1/Power"), Some(SolarField::Consumption));
    assert_eq!(ts.field("N/p/solarcharger/999/State"), None);
}

#[test]
fn shunt_values_take_priority_over_aggregates() {
    let ts = ShuntTopics::new("p", 279);
    assert_eq!(ts.soc, "N/p/battery/279/Soc");
    let mut f = ShuntFreshness::new();
    // No shunt yet: the system aggregate applies.
    assert_eq!(f.route(&ts, "N/p/system/0/Dc/Battery/Soc", 0), ShuntRoute::Apply(ShuntInput::SystemSoc));
    assert_eq!(f.route(&ts, "N/p/battery/279/Soc", 1_000), ShuntRoute::Apply(ShuntInput::Soc));
    assert_eq!(f.last_seen, Some(1_000));
    // Shunt fresh: the aggregate is held back.
    assert_eq!(f.route(&ts, "N/p/system/0/Dc/Battery/Soc", 5_000), ShuntRoute::Held);
    assert_eq!(f.route(&ts, "N/p/vebus/276/Dc/0/Voltage", 10_999), ShuntRoute::Held);
    // Stale after 10 s.
    assert_eq!(f.route(&ts, "N/p/vebus/276/Dc/0/Voltage", 11_000), ShuntRoute::Apply(ShuntInput::VebusVoltage));
    assert_eq!(f.route(&ts, "N/p/battery/279/History/ChargedEnergy", 11_000), ShuntRoute::Apply(ShuntInput::ChargedEnergy));
    assert_eq!(f.last_seen, Some(1_000));
    assert_eq!(f.route(&ts, "N/p/settings/0/Foo", 11_000), ShuntRoute::Ignore);
}

#[test]
fn amp_hour_window() {
    assert_eq!(ah_step(5, Some(0), 5, 1_000), (false, Some(1_000)));
    assert_eq!(ah_step(5, Some(0), 6, 600_000), (true, None));
    assert_eq!(ah_step(5, Some(1_000), 5, 1_000), (false, None));
    assert_eq!(ah_step(5, None, 5, 1_000), (false, None));
}

#[test]
fn inverter_topics_and_ac_power() {
    assert_eq!(inverter_field("N/p/vebus/276/Ac/Out/L1/P"), Some(InverterField::AcOutPower));
    assert_eq!(inverter_field("N/p/vebus/276/Ac/State/IgnoreAcIn1"), Some(InverterField::AcIgnore));
    assert_eq!(inverter_field("N/p/vebus/276/State"), Some(InverterField::VebusState));
    assert_eq!(inverter_field("N/p/battery/276/Dc/0/Voltage"), None);
    assert!(ac_power_ready(true, true));
    assert!(!ac_power_ready(true, false));
    assert_eq!(ac_power_source(true, false, false), AcPowerSource::Measured);
    assert_eq!(ac_power_source(false, true, true), AcPowerSource::VoltageTimesCurrent);
    assert_eq!(ac_power_source(false, true, false), AcPowerSource::Unknown);
}

#[test]
fn lg_thinq_requests() {
    let mut cfg = LgThinqConfig::default();
    assert_eq!(poller_start(&cfg), PollerStart::Disabled);
    cfg.enabled = true;
    assert_eq!(poller_start(&cfg), PollerStart::MissingCredentials);
    cfg.device_id = "dev1".into();
    cfg.bearer_token = "tok".into();
    assert_eq!(poller_start(&cfg), PollerStart::Start);
    assert_eq!(state_url(&cfg), "https://api-eic.lgthinq.com/devices/dev1/state");
    assert_eq!(control_url(&cfg), "https://api-eic.lgthinq.com/devices/dev1/control");
    let h = base_headers(&cfg);
    let names: Vec<&str> = h.iter().map(|(n, _)| n.as_str()).collect();
    assert_eq!(names, vec!["authorization", "x-country", "x-client-id", "content-type"]);
    assert_eq!(h[0].1, "Bearer tok");
    assert_eq!(message_id(255), "ff");
    assert_eq!(message_id(1_700_000_000_000), format!("{:x}", 1_700_000_000_000u64));
}

#[test]
fn retained_pv_baseline() {
    assert_eq!(retained_baseline("738976:17.123", 738976).as_deref(), Some("17.123"));
    assert_eq!(retained_baseline("  738976:17.1\n", 738976).as_deref(), Some("17.1"));
    assert_eq!(retained_baseline("738975:17.123", 738976), None);
    assert_eq!(retained_baseline("17.123", 738976), None);
    assert_eq!(retained_baseline("", 738976), None);
    assert_eq!(retained_baseline("x:1", 738976), None);
    assert_eq!(retained_baseline("738976:a:b", 738976).as_deref(), Some("a:b"));
}
