use daly_bms::energy::config::{
    default_mppt_full_states, find_config_path, validate, ApiConfig, ConfigError, LgThinqConfig,
    MqttConfig, VictronConfig,
};
use daly_bms::energy::logic::charge_current;
use daly_bms::energy::logic::deye_command::{
    decide, is_grid_connected, read_input_flags, DeyeController, DeyeInputFlags,
};
use daly_bms::energy::logic::smartshunt;
use daly_bms::energy::logic::solar_power;
use daly_bms::energy::logic::toshiba_ac::{
    PresenceAction, PresenceControl, ToshibaStatePayload, decide_presence, parse_presence_zone, parse_zone, presence_command_json, snapshot_from_payload,
};
use daly_bms::energy::logic::water_heater;
use daly_bms::energy::types::{MqttOutgoing, MqttQos, WaterHeaterMode};

#[test]
fn offgrid_ignores_pv_excess() {
    assert_eq!(charge_current::evaluate(true, false), "offgrid");
    assert_eq!(charge_current::evaluate(true, true), "offgrid");
}

#[test]
fn grid_with_pv_excess() {
    assert_eq!(charge_current::evaluate(false, true), "grid_pv_excess");
}

#[test]
fn grid_no_excess() {
    assert_eq!(charge_current::evaluate(false, false), "grid_no_excess");
}

#[test]
fn grid_tied_helper() {
    assert!(is_grid_connected(Some(0), Some(1)));
    assert!(!is_grid_connected(Some(1), Some(1)));
    assert!(!is_grid_connected(Some(0), Some(0)));
    assert!(is_grid_connected(None, None));
}

#[test]
fn matches_truth_table_on_all_combos() {
    const EXPECTED: [bool; 16] = [
        false, true, false, false, false, false, false, false, true, true, true, false, true,
        false, true, false,
    ];
    for bits in 0u8..16 {
        let r = bits & 1 != 0;
        let h = bits & 2 != 0;
        let c = bits & 4 != 0;
        let rd = bits & 8 != 0;
        assert_eq!(decide(r, h, c, rd), EXPECTED[bits as usize]);
    }
}

#[test]
fn on_stays_on_when_clear() {
    assert!(decide(true, false, false, false));
}

#[test]
fn on_cuts_on_hard_spike() {
    assert!(!decide(true, true, false, false));
}

#[test]
fn on_cuts_when_debounced() {
    assert!(!decide(true, false, true, false));
}

#[test]
fn off_stays_off_until_restore_debounced() {
    assert!(!decide(false, false, false, false));
    assert!(decide(false, false, false, true));
}

#[test]
fn off_ignores_cut_flags() {
    assert!(!decide(false, true, true, false));
}

// Controller driven with the flags the caller derives from the frequency:
// cut boundary 51.0 Hz, hard 51.3 Hz, cut debounce 3 s, restore debounce 45 s.
fn step(c: &mut DeyeController, freq: f64, mppt_full: bool, now: i64) -> Option<bool> {
    let should_cut = freq >= 51.0 || mppt_full;
    let hard = freq >= 51.3;
    c.step(should_cut, hard, 1_700_000_000 + now, 3, 45)
}

#[test]
fn hard_freq_cuts_immediately() {
    let mut c = DeyeController::new(true);
    assert_eq!(step(&mut c, 51.5, false, 0), Some(false));
    assert!(!c.relay_on);
}

#[test]
fn soft_high_freq_cuts_after_debounce() {
    let mut c = DeyeController::new(true);
    assert_eq!(step(&mut c, 51.1, false, 0), None);
    assert_eq!(step(&mut c, 51.1, false, 2), None);
    assert_eq!(step(&mut c, 51.1, false, 3), Some(false));
}

#[test]
fn mppt_full_cuts_even_at_low_freq() {
    let mut c = DeyeController::new(true);
    assert_eq!(step(&mut c, 50.0, true, 0), None);
    assert_eq!(step(&mut c, 50.0, true, 3), Some(false));
}

#[test]
fn restores_after_sustained_clear() {
    let mut c = DeyeController::new(false);
    assert_eq!(step(&mut c, 50.0, false, 0), None);
    assert_eq!(step(&mut c, 50.0, false, 44), None);
    assert_eq!(step(&mut c, 50.0, false, 45), Some(true));
}

#[test]
fn restore_wait_resets_if_condition_breaks() {
    let mut c = DeyeController::new(false);
    assert_eq!(step(&mut c, 50.0, false, 0), None);
    assert_eq!(step(&mut c, 51.2, false, 10), None);
    assert_eq!(step(&mut c, 50.0, false, 20), None);
    assert_eq!(step(&mut c, 50.0, false, 64), None);
    assert_eq!(step(&mut c, 50.0, false, 65), Some(true));
}

#[test]
fn never_stuck_off_when_conditions_allow_restore() {
    let mut c = DeyeController::new(false);
    let mut restored = false;
    for s in 0..300 {
        if let Some(true) = step(&mut c, 50.08, false, s) {
            restored = true;
            break;
        }
    }
    assert!(restored);
}

#[test]
fn full_cycle_cut_then_restore() {
    let mut c = DeyeController::new(true);
    assert_eq!(step(&mut c, 51.5, false, 0), Some(false));
    assert_eq!(step(&mut c, 50.0, false, 10), None);
    assert_eq!(step(&mut c, 50.0, false, 55), Some(true));
}

#[test]
fn new_day_or_missing_captures_charged() {
    assert!(smartshunt::baseline_decision(true, false, false, false).capture_charged);
    assert!(smartshunt::baseline_decision(false, true, false, false).capture_charged);
}

#[test]
fn new_day_or_missing_captures_discharged() {
    assert!(smartshunt::baseline_decision(false, false, true, false).capture_discharged);
    assert!(smartshunt::baseline_decision(false, false, false, true).capture_discharged);
}

#[test]
fn all_false_captures_nothing() {
    let d = smartshunt::baseline_decision(false, false, false, false);
    assert!(!d.capture_charged);
    assert!(!d.capture_discharged);
}

#[test]
fn all_true_captures_both() {
    let d = smartshunt::baseline_decision(true, true, true, true);
    assert!(d.capture_charged);
    assert!(d.capture_discharged);
}

#[test]
fn new_day_resets_and_captures() {
    let d = solar_power::baseline_decision(true, false);
    assert!(d.reset);
    assert!(d.capture);
}

#[test]
fn absent_baseline_captures_no_reset() {
    let d = solar_power::baseline_decision(false, true);
    assert!(!d.reset);
    assert!(d.capture);
}

#[test]
fn neither_flag_no_action() {
    let d = solar_power::baseline_decision(false, false);
    assert!(!d.reset);
    assert!(!d.capture);
}

#[test]
fn new_day_and_absent_both_trigger() {
    let d = solar_power::baseline_decision(true, true);
    assert!(d.reset);
    assert!(d.capture);
}

#[test]
fn parse_zone_accepts_state_topic() {
    assert_eq!(parse_zone("santuario/toshiba/salon/state"), Some("salon"));
    assert_eq!(parse_zone("santuario/toshiba/chambre/state"), Some("chambre"));
}

#[test]
fn parse_zone_rejects_other_topics() {
    assert_eq!(parse_zone("santuario/toshiba/salon/command"), None);
    assert_eq!(parse_zone("santuario/toshiba/salon/state/extra"), None);
    assert_eq!(parse_zone("santuario/toshiba//state"), None);
    assert_eq!(parse_zone("stat/tongou/POWER"), None);
    assert_eq!(parse_zone("santuario/toshiba/salon"), None);
}

#[test]
fn presence_present_is_occupied() {
    assert_eq!(decide_presence(true, 0, 0, 300), PresenceAction::Occupied);
    assert_eq!(decide_presence(true, 9999, 0, 300), PresenceAction::Occupied);
}

#[test]
fn presence_eco_immediately_then_off_after_5min() {
    assert_eq!(decide_presence(false, 0, 0, 300), PresenceAction::Eco);
    assert_eq!(decide_presence(false, 299, 0, 300), PresenceAction::Eco);
    assert_eq!(decide_presence(false, 300, 0, 300), PresenceAction::Off);
    assert_eq!(decide_presence(false, 3600, 0, 300), PresenceAction::Off);
}

#[test]
fn presence_grace_before_eco() {
    assert_eq!(decide_presence(false, 30, 60, 300), PresenceAction::Occupied);
    assert_eq!(decide_presence(false, 60, 60, 300), PresenceAction::Eco);
}

#[test]
fn presence_command_payloads_are_valid_json() {
    for a in [PresenceAction::Occupied, PresenceAction::Eco, PresenceAction::Off] {
        let js = presence_command_json(a);
        let _: serde_json::Value = serde_json::from_str(js).unwrap();
    }
    assert_eq!(presence_command_json(PresenceAction::Eco), r#"{"preset":"eco"}"#);
    assert_eq!(presence_command_json(PresenceAction::Off), r#"{"power":false}"#);
}

#[test]
fn parse_presence_zone_accepts_presence_topic() {
    assert_eq!(parse_presence_zone("santuario/toshiba/presence/Shorai-31"), Some("Shorai-31"));
}

#[test]
fn parse_presence_zone_rejects_other_topics() {
    assert_eq!(parse_presence_zone("santuario/toshiba/Shorai-31/state"), None);
    assert_eq!(parse_presence_zone("santuario/toshiba/presence"), None);
    assert_eq!(parse_presence_zone("santuario/toshiba/presence/"), None);
    assert_eq!(parse_presence_zone("santuario/toshiba/presence/Shorai-31/extra"), None);
}

fn t(secs: i64) -> i64 {
    1_700_000_000 + secs
}

#[test]
fn presence_control_emits_only_on_change() {
    let mut c = PresenceControl::new();
    c.on_presence("Shorai-31", true, t(0));
    assert_eq!(c.evaluate(t(0), 0, 300), vec![("Shorai-31".to_string(), PresenceAction::Occupied)]);
    assert!(c.evaluate(t(1), 0, 300).is_empty());
    c.on_presence("Shorai-31", false, t(2));
    assert_eq!(c.evaluate(t(2), 0, 300), vec![("Shorai-31".to_string(), PresenceAction::Eco)]);
    assert!(c.evaluate(t(299), 0, 300).is_empty());
    assert_eq!(c.evaluate(t(300), 0, 300), vec![("Shorai-31".to_string(), PresenceAction::Off)]);
    c.on_presence("Shorai-31", true, t(400));
    assert_eq!(c.evaluate(t(400), 0, 300), vec![("Shorai-31".to_string(), PresenceAction::Occupied)]);
}

#[test]
fn presence_control_no_off_before_first_seen() {
    let mut c = PresenceControl::new();
    c.on_presence("Shorai-32", false, t(1000));
    assert_eq!(c.evaluate(t(1000), 0, 300), vec![("Shorai-32".to_string(), PresenceAction::Eco)]);
}

#[test]
fn presence_control_zones_independent() {
    let mut c = PresenceControl::new();
    c.on_presence("a", true, t(0));
    c.on_presence("b", false, t(0));
    let mut out = c.evaluate(t(0), 0, 300);
    out.sort_by(|x, y| x.0.cmp(&y.0));
    assert_eq!(
        out,
        vec![("a".to_string(), PresenceAction::Occupied), ("b".to_string(), PresenceAction::Eco)]
    );
}

#[test]
fn all_ok_gives_heat_pump() {
    assert_eq!(water_heater::evaluate(false, false, false, false), "HEAT_PUMP");
}

#[test]
fn any_condition_forces_vacation() {
    assert_eq!(water_heater::evaluate(true, false, false, false), "VACATION");
    assert_eq!(water_heater::evaluate(false, true, false, false), "VACATION");
    assert_eq!(water_heater::evaluate(false, false, true, false), "VACATION");
    assert_eq!(water_heater::evaluate(false, false, false, true), "VACATION");
}

#[test]
fn all_bad_forces_vacation() {
    assert_eq!(water_heater::evaluate(true, true, true, true), "VACATION");
}

#[test]
fn water_heater_mode_names() {
    for m in [WaterHeaterMode::Vacation, WaterHeaterMode::HeatPump, WaterHeaterMode::Turbo] {
        assert_eq!(WaterHeaterMode::from_lg_str(m.to_lg_str()), m);
    }
    assert_eq!(WaterHeaterMode::from_lg_str("heat_pump"), WaterHeaterMode::Vacation);
    assert_eq!(WaterHeaterMode::Turbo.to_venus_state(), 2);
    assert_eq!(WaterHeaterMode::default(), WaterHeaterMode::Vacation);
}

#[test]
fn raw_outgoing_message() {
    let m = MqttOutgoing::raw("santuario/persist/deye_state".into(), "On".into(), true);
    assert_eq!(m.topic, "santuario/persist/deye_state");
    assert_eq!(m.payload, "On");
    assert!(m.retain);
    assert!(matches!(m.qos, MqttQos::AtLeastOnce));
}

#[test]
fn config_defaults() {
    let m = MqttConfig::default();
    assert_eq!(m.host, "192.168.1.141");
    assert_eq!(m.port, 1883);
    assert!(m.client_id.starts_with("energy-manager-"));
    assert_eq!(m.client_id.len(), 51);
    let lg = LgThinqConfig::default();
    assert!(!lg.enabled);
    assert_eq!(lg.poll_interval_secs, 600);
    assert_eq!(default_mppt_full_states(), vec![4, 5, 6]);
    assert_eq!(find_config_path(false, true), "/etc/daly-bms/config.toml");
    assert_eq!(find_config_path(true, true), "./Config.toml");
    assert_eq!(find_config_path(false, false), "./Config.toml");
}

#[test]
fn deye_channels_fall_back_to_single_channel() {
    let mut v = VictronConfig {
        portal_id: "c0619ab9929a".into(),
        vebus_instance: 275,
        mppt1_instance: 273,
        mppt2_instance: 289,
        pvinverter_instance: 32,
        shelly_deye_id: String::new(),
        shelly_deye_channel: 1,
        shelly_deye_channels: vec![],
        tasmota_waterheater_id: String::new(),
        smartshunt_instance: 274,
    };
    assert_eq!(v.deye_channels(), vec![1]);
    v.shelly_deye_channels = vec![0, 1];
    assert_eq!(v.deye_channels(), vec![0, 1]);
}

fn payload_from_json(text: &str) -> ToshibaStatePayload {
    let v: serde_json::Value = serde_json::from_str(text).unwrap();
    let s = |k: &str| v.get(k).and_then(|x| x.as_str()).map(String::from);
    let i = |k: &str| v.get(k).and_then(|x| x.as_i64());
    ToshibaStatePayload {
        power: v.get("power").and_then(|x| x.as_bool()),
        mode: s("mode"),
        target_temp: i("target_temp").map(|x| x as u8),
        current_temp: i("current_temp").map(|x| x as i8),
        outdoor_temp: i("outdoor_temp").map(|x| x as i8),
        fan: s("fan"),
        swing: s("swing"),
        preset: s("preset"),
        pwr_level: i("pwr_level").map(|x| x as u8),
        self_clean: v.get("self_clean").and_then(|x| x.as_bool()).unwrap_or(false),
    }
}

#[test]
fn payload_maps_to_snapshot() {
    let json = r#"{"power":true,"mode":"cool","target_temp":24,"current_temp":21,
        "outdoor_temp":8,"fan":"auto","swing":"vertical","preset":"standard",
        "pwr_level":100,"self_clean":false}"#;
    let p = payload_from_json(json);
    let now = 1_700_000_000;
    let s = snapshot_from_payload(p, now);
    assert_eq!(s.power, Some(true));
    assert_eq!(s.mode.as_deref(), Some("cool"));
    assert_eq!(s.target_temp_c, Some(24));
    assert_eq!(s.current_temp_c, Some(21));
    assert_eq!(s.outdoor_temp_c, Some(8));
    assert_eq!(s.pwr_level_pct, Some(100));
    assert!(!s.self_clean);
    assert_eq!(s.last_update, Some(now));
}

#[test]
fn partial_payload_is_accepted() {
    let p = payload_from_json(r#"{"mode":"off"}"#);
    let s = snapshot_from_payload(p, 1_700_000_000);
    assert_eq!(s.mode.as_deref(), Some("off"));
    assert_eq!(s.target_temp_c, None);
    assert!(!s.self_clean);
}

#[test]
fn input_flags_fresh_full_mppt() {
    let full = default_mppt_full_states();
    // MPPT 273 reported "Float" (5) 3 s ago, MPPT 289 never reported.
    let f = read_input_flags(Some(995), (Some(5), Some(997)), (None, None), 1000, 15, true, &full);
    assert_eq!(f, DeyeInputFlags { freq_stale: false, mppt_full: true, mppt_stale: false });
}

#[test]
fn input_flags_stale_mppt_never_full() {
    let full = default_mppt_full_states();
    let f = read_input_flags(None, (Some(5), Some(900)), (Some(4), Some(950)), 1000, 15, true, &full);
    assert_eq!(f, DeyeInputFlags { freq_stale: true, mppt_full: false, mppt_stale: true });
}

#[test]
fn input_flags_cut_disabled_or_bulk_is_not_full() {
    let full = default_mppt_full_states();
    let f = read_input_flags(Some(1000), (Some(5), Some(999)), (None, None), 1000, 15, false, &full);
    assert!(!f.mppt_full && !f.mppt_stale);
    let g = read_input_flags(Some(1000), (Some(3), Some(999)), (Some(2), Some(998)), 1000, 15, true, &full);
    assert!(!g.mppt_full && !g.mppt_stale);
}

#[test]
fn config_validation_refuses_unusable_settings() {
    let mut mqtt = MqttConfig::default();
    let api = ApiConfig::default();
    let mut lg = LgThinqConfig::default();
    assert_eq!(validate(&mqtt, &api, true, 900, &lg), Ok(()));
    assert_eq!(validate(&mqtt, &api, false, 0, &lg), Ok(()));
    assert_eq!(validate(&mqtt, &api, true, 0, &lg), Err(ConfigError::ZeroMeteoInterval));
    lg.enabled = true;
    lg.poll_interval_secs = 0;
    assert_eq!(validate(&mqtt, &api, true, 900, &lg), Err(ConfigError::ZeroLgPollInterval));
    mqtt.port = 0;
    assert_eq!(validate(&mqtt, &api, true, 900, &lg), Err(ConfigError::ZeroMqttPort));
    mqtt.host = "  \t".into();
    let e = validate(&mqtt, &api, true, 900, &lg).unwrap_err();
    assert_eq!(e, ConfigError::EmptyMqttHost);
    assert_eq!(e.message(), "config invalide : `energy_manager.mqtt.host` est vide");
    let blank_bind = ApiConfig { bind: " ".into() };
    let mqtt = MqttConfig::default();
    assert_eq!(
        validate(&mqtt, &blank_bind, false, 0, &LgThinqConfig::default()),
        Err(ConfigError::EmptyApiBind)
    );
}
