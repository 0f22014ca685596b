use daly_bms::matter::bridge::Bridge;
use daly_bms::matter::config::{command_topic, state_topic, zone_from_state_topic, NodeConfig};
use daly_bms::matter::mapping::{
    attrs_from_state, command_json, local_temperature_centi, occupancy_bitmap, setpoint_centi,
    system_mode, MatterSystemMode, MatterWrite, ToshibaStatePayload,
};

fn cfg() -> NodeConfig {
    NodeConfig::new(vec!["Shorai-31".into(), "Shorai-32".into()])
}

#[test]
fn matter_write_produces_command() {
    let b = Bridge::new();
    assert_eq!(
        b.on_matter_write(MatterWrite::SystemMode(MatterSystemMode::Off.as_u8())).unwrap(),
        r#"{"power":false}"#
    );
    assert_eq!(b.on_matter_write(MatterWrite::Setpoint(2300)).unwrap(), r#"{"target_temp":23}"#);
}

#[test]
fn state_message_updates_cache_and_maps() {
    let mut b = Bridge::new();
    let p = ToshibaStatePayload {
        power: Some(true),
        mode: Some("heat".to_string()),
        target_temp: Some(22),
        current_temp: Some(19),
    };
    let attrs = b.on_state("Shorai-31", &p);
    assert_eq!(attrs.system_mode, MatterSystemMode::Heat.as_u8());
    assert_eq!(attrs.local_temperature, Some(1900));
    assert_eq!(attrs.occupied_heating_setpoint, Some(2200));
    assert_eq!(b.attrs("Shorai-31"), Some(&attrs));
    assert!(b.attrs("Shorai-99").is_none());
}

#[test]
fn cache_keeps_last_state_per_zone() {
    let mut b = Bridge::new();
    let on = ToshibaStatePayload { power: Some(true), mode: Some("cool".into()), target_temp: Some(24), current_temp: Some(26) };
    let off = ToshibaStatePayload { power: Some(false), ..Default::default() };
    b.on_state("a", &on);
    b.on_state("b", &on);
    b.on_state("a", &off);
    assert_eq!(b.attrs("a").unwrap().system_mode, 0);
    assert_eq!(b.attrs("a").unwrap().local_temperature, None);
    assert_eq!(b.attrs("b").unwrap().system_mode, 3);
    assert!(b.attrs("c").is_none());
}

#[test]
fn valid_default_config() {
    assert!(cfg().validate().is_ok());
}

#[test]
fn rejects_bad_zones() {
    assert!(NodeConfig::new(vec![]).validate().is_err());
    assert!(NodeConfig::new(vec!["a/b".into()]).validate().is_err());
    assert!(NodeConfig::new(vec!["x".into(), "x".into()]).validate().is_err());
}

#[test]
fn validation_messages_name_the_broken_rule() {
    assert_eq!(NodeConfig::new(vec![]).validate().unwrap_err(), "aucune zone configurée");
    assert_eq!(
        NodeConfig::new(vec!["ok".into(), "a b".into()]).validate().unwrap_err(),
        "zone invalide (segment de topic) : \"a b\""
    );
    assert_eq!(NodeConfig::new(vec!["x".into(), "y".into(), "x".into()]).validate().unwrap_err(), "zones dupliquées");
    let mut c = cfg();
    c.mqtt_host = " \t".into();
    assert_eq!(c.validate().unwrap_err(), "mqtt_host vide");
    let mut c = cfg();
    c.discriminator = 5000;
    assert_eq!(c.validate().unwrap_err(), "discriminator hors plage 0..=4095 : 5000");
    let mut c = cfg();
    c.passcode = 99_999_999;
    assert_eq!(c.validate().unwrap_err(), "passcode Matter invalide (interdit par la spec) : 99999999");
    let mut c = cfg();
    c.discriminator = 4095;
    c.passcode = 1;
    assert!(c.validate().is_ok());
}

#[test]
fn rejects_bad_matter_params() {
    let mut c = cfg();
    c.discriminator = 5000;
    assert!(c.validate().is_err());

    let mut c = cfg();
    c.passcode = 12345678;
    assert!(c.validate().is_err());

    let mut c = cfg();
    c.passcode = 0;
    assert!(c.validate().is_err());
}

#[test]
fn topic_helpers() {
    assert_eq!(state_topic("Shorai-31"), "santuario/toshiba/Shorai-31/state");
    assert_eq!(command_topic("Shorai-31"), "santuario/toshiba/Shorai-31/command");
    assert_eq!(zone_from_state_topic("santuario/toshiba/Shorai-31/state"), Some("Shorai-31"));
    assert_eq!(zone_from_state_topic("santuario/toshiba/Shorai-31/command"), None);
    assert_eq!(zone_from_state_topic("santuario/toshiba/presence/Shorai-31"), None);
}

#[test]
fn zone_topic_round_trip() {
    for z in ["a", "Shorai-31", "salle_de_bain"] {
        assert_eq!(zone_from_state_topic(&state_topic(z)), Some(z));
    }
    assert_eq!(zone_from_state_topic("santuario/toshiba//state"), None);
    assert_eq!(zone_from_state_topic("santuario/toshiba/state"), None);
}

#[test]
fn local_temp_handles_invalid() {
    assert_eq!(local_temperature_centi(Some(21)), Some(2100));
    assert_eq!(local_temperature_centi(Some(-3)), Some(-300));
    assert_eq!(local_temperature_centi(Some(127)), None);
    assert_eq!(local_temperature_centi(None), None);
}

#[test]
fn setpoint_conversion() {
    assert_eq!(setpoint_centi(Some(24)), Some(2400));
    assert_eq!(setpoint_centi(Some(8)), Some(800));
    assert_eq!(setpoint_centi(None), None);
}

#[test]
fn system_mode_from_power_and_mode() {
    assert_eq!(system_mode(Some(false), Some("cool")), MatterSystemMode::Off);
    assert_eq!(system_mode(Some(true), Some("cool")), MatterSystemMode::Cool);
    assert_eq!(system_mode(Some(true), Some("heat")), MatterSystemMode::Heat);
    assert_eq!(system_mode(Some(true), Some("dry")), MatterSystemMode::Dry);
    assert_eq!(system_mode(Some(true), Some("fan_only")), MatterSystemMode::FanOnly);
    assert_eq!(system_mode(Some(true), Some("heat_cool")), MatterSystemMode::Auto);
    assert_eq!(system_mode(Some(true), Some("weird")), MatterSystemMode::Auto);
    assert_eq!(system_mode(None, None), MatterSystemMode::Auto);
}

#[test]
fn attrs_from_full_state() {
    let p = ToshibaStatePayload {
        power: Some(true),
        mode: Some("cool".to_string()),
        target_temp: Some(24),
        current_temp: Some(21),
    };
    let a = attrs_from_state(&p);
    assert_eq!(a.local_temperature, Some(2100));
    assert_eq!(a.occupied_cooling_setpoint, Some(2400));
    assert_eq!(a.occupied_heating_setpoint, Some(2400));
    assert_eq!(a.system_mode, MatterSystemMode::Cool.as_u8());
}

#[test]
fn attrs_when_off() {
    let p = ToshibaStatePayload { power: Some(false), ..Default::default() };
    assert_eq!(attrs_from_state(&p).system_mode, MatterSystemMode::Off.as_u8());
}

#[test]
fn command_from_system_mode_writes() {
    assert_eq!(command_json(MatterWrite::SystemMode(0)).unwrap(), r#"{"power":false}"#);
    assert_eq!(command_json(MatterWrite::SystemMode(3)).unwrap(), r#"{"power":true,"mode":"cool"}"#);
    assert_eq!(command_json(MatterWrite::SystemMode(4)).unwrap(), r#"{"power":true,"mode":"heat"}"#);
    assert_eq!(command_json(MatterWrite::SystemMode(1)).unwrap(), r#"{"power":true,"mode":"heat_cool"}"#);
    assert_eq!(command_json(MatterWrite::SystemMode(9)), None);
}

#[test]
fn command_from_setpoint_rounds_to_integer() {
    assert_eq!(command_json(MatterWrite::Setpoint(2400)).unwrap(), r#"{"target_temp":24}"#);
    assert_eq!(command_json(MatterWrite::Setpoint(2160)).unwrap(), r#"{"target_temp":22}"#);
}

#[test]
fn setpoint_rounding_matches_float_rounding() {
    for c in [-2150i16, -2149, -50, -49, 0, 49, 50, 149, 150, 2150, 32767, -32768] {
        let expected = (c as f64 / 100.0).round() as i64;
        assert_eq!(command_json(MatterWrite::Setpoint(c)).unwrap(), format!("{{\"target_temp\":{expected}}}"));
    }
}

#[test]
fn command_payloads_are_valid_json() {
    for w in [MatterWrite::SystemMode(0), MatterWrite::SystemMode(4), MatterWrite::Setpoint(2100)] {
        let js = command_json(w).unwrap();
        let _: serde_json::Value = serde_json::from_str(&js).unwrap();
    }
}

#[test]
fn presence_maps_to_occupancy() {
    assert_eq!(occupancy_bitmap(true), 1);
    assert_eq!(occupancy_bitmap(false), 0);
}

#[test]
fn mode_codes_round_trip() {
    for m in [MatterSystemMode::Off, MatterSystemMode::Auto, MatterSystemMode::Cool, MatterSystemMode::Heat, MatterSystemMode::FanOnly, MatterSystemMode::Dry] {
        assert_eq!(MatterSystemMode::from_u8(m.as_u8()), Some(m));
    }
    assert_eq!(MatterSystemMode::from_u8(2), None);
}
