use daly_bms::bms::monitor::{
    daly_service, energy_manager_service, mosquitto_service, network_service, watchdog_may_restart,
};

#[test]
fn service_statuses() {
    let s = daly_service("");
    assert_eq!((s.name.as_str(), s.active, s.status.as_str()), ("daly-bms", true, "active"));
    assert_eq!(daly_service("activating").status, "activating");
    let e = energy_manager_service("active", false);
    assert_eq!((e.active, e.status.as_str()), (true, "active"));
    let e = energy_manager_service("inactive", true);
    assert_eq!((e.active, e.status.as_str()), (true, "active (port 8081)"));
    let e = energy_manager_service("", false);
    assert_eq!((e.active, e.status.as_str()), (false, "unknown"));
    let e = energy_manager_service("failed", false);
    assert_eq!((e.active, e.status.as_str()), (false, "failed"));
    let m = mosquitto_service(false, true);
    assert_eq!((m.active, m.status.as_str()), (true, "inactive"));
}

#[test]
fn network_probe_outcomes() {
    let (s, a) = network_service("venus-mqtt", "192.168.1.120", 1883, true, None, false);
    assert_eq!((s.active, s.status.as_str(), a), (true, "192.168.1.120:1883", None));
    let (s, a) = network_service("mosquitto", "127.0.0.1", 1883, false, Some("mosquitto-broker"), true);
    assert_eq!((s.active, s.status.as_str()), (false, "restarted"));
    assert_eq!(a.as_deref(), Some("Redémarré service systemd: mosquitto-broker"));
    let (s, a) = network_service("mosquitto", "127.0.0.1", 1883, false, Some("mosquitto-broker"), false);
    assert_eq!((s.status.as_str(), a), ("down", None));
    let (s, _) = network_service("energy-manager", "127.0.0.1", 8081, false, None, false);
    assert_eq!(s.status, "unreachable");
}

#[test]
fn watchdog_cooldown() {
    assert!(watchdog_may_restart(None, 0));
    assert!(!watchdog_may_restart(Some(1_000), 120_999));
    assert!(watchdog_may_restart(Some(1_000), 121_000));
    assert!(!watchdog_may_restart(Some(5_000), 1_000));
}

#[test]
fn bms_series_keys() {
    use_keys();
}

fn use_keys() {
    let id = daly_bms::bms::redb_writes::bms_id(0x0a);
    assert_eq!(id, "0x0a");
    assert_eq!(daly_bms::bms::redb_writes::bms_id(0xff), "0xff");
    assert_eq!(daly_bms::bms::redb_writes::series_key("bms_soc", &id), "bms_soc:0x0a");
    assert_eq!(
        daly_bms::bms::redb_writes::cell_series_key("bms_cell_voltage", &id, 12),
        "bms_cell_voltage:0x0a:12"
    );
}

fn strings(v: &[&str]) -> Vec<String> {
    v.iter().map(|s| s.to_string()).collect()
}

#[test]
fn server_command_line() {
    use_args();
}

fn use_args() {
    let a = daly_bms::bms::args::ServerArgs::from_args(&strings(&[
        "daly-bms-server", "-p", "/dev/ttyUSB1", "--bms", "0x01,0x02", "--port", "COM3", "--check-config",
    ]));
    assert_eq!(a.port.as_deref(), Some("/dev/ttyUSB1"));
    assert_eq!(a.bms_addrs, vec![1, 2]);
    assert!(a.check_config);
    let b = daly_bms::bms::args::ServerArgs::from_args(&strings(&["daly-bms-server", "--bms"]));
    assert_eq!((b.port.clone(), b.bms_addrs.len(), b.check_config), (None, 0, false));
    assert_eq!(daly_bms::bms::args::startup_detection(&b, false, true), (true, true));
    assert_eq!(daly_bms::bms::args::startup_detection(&b, true, false), (false, false));
    assert_eq!(daly_bms::bms::args::startup_detection(&b, true, true), (true, false));
    assert_eq!(daly_bms::bms::args::startup_detection(&a, false, true), (false, false));
}
