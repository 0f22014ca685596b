use daly_bms::bms::alerts::{evaluate_rules, RuleEvent, RuleState, RuleTiming};
use daly_bms::bms::args::parse_addresses;
use daly_bms::bms::rs485::{
    error_kind, record_rs485_error, record_rs485_success, rs485_totals, Rs485DeviceStats,
    Rs485Totals,
};
use daly_bms::bms::tsink::TsinkConfig;
use std::collections::BTreeMap;

#[test]
fn bms_addresses_from_the_command_line() {
    assert_eq!(parse_addresses("0x01,0x02"), vec![1, 2]);
    assert_eq!(parse_addresses(" 1 , 2,0X0a"), vec![1, 2, 10]);
    assert_eq!(parse_addresses("0x1ff,300,abc,,7"), vec![7]);
    assert_eq!(parse_addresses("+5,0x+6"), vec![5, 6]);
    assert!(parse_addresses("").is_empty());
    assert_eq!(parse_addresses("255,256"), vec![255]);
}

#[test]
fn tsink_defaults() {
    let c = TsinkConfig::default();
    assert_eq!(c.data_path, "./tsink_data");
    assert_eq!((c.retention_days, c.memory_limit_mb, c.worker_threads), (30, 512, 2));
    assert_eq!((c.batch_size, c.flush_interval_secs, c.compaction_interval_secs), (500, 10, 300));
}

#[test]
fn rs485_errors_are_classified() {
    let mut s = Rs485DeviceStats::new(3, "BMS 3".into(), "BMS");
    s.record_error("Timeout while reading", 10);
    s.record_error("AUCUNE RÉPONSE du BMS", 11);
    s.record_error("bad CRC 0x1234", 12);
    s.record_error("frame too short", 13);
    assert_eq!((s.timeout_count, s.crc_error_count, s.other_error_count), (2, 1, 1));
    assert_eq!(s.last_error_kind.as_deref(), Some("other"));
    assert_eq!(s.last_error_message.as_deref(), Some("frame too short"));
    assert_eq!(s.last_error_ts, Some(13));
    s.record_success(20);
    assert_eq!((s.successful_polls, s.last_success_ts), (1, Some(20)));
    let long = "é".repeat(250);
    s.record_error(&long, 21);
    assert_eq!(s.last_error_message.unwrap().chars().count(), 200);
}

#[test]
fn rs485_registry_creates_and_updates_entries() {
    let mut stats = BTreeMap::new();
    record_rs485_success(&mut stats, 8, "ET112", "Maison", 100);
    record_rs485_error(&mut stats, 8, "ET112", "ignored", "timeout", 101);
    record_rs485_error(&mut stats, 1, "BMS", "BMS 1", "crc mismatch", 102);
    assert_eq!(stats.len(), 2);
    let et112 = &stats[&8];
    assert_eq!((et112.name.as_str(), et112.kind.as_str()), ("Maison", "ET112"));
    assert_eq!((et112.successful_polls, et112.timeout_count), (1, 1));
    let bms = &stats[&1];
    assert_eq!((bms.successful_polls, bms.crc_error_count), (0, 1));
    assert_eq!(stats.keys().copied().collect::<Vec<_>>(), vec![1, 8]);
}

#[test]
fn alert_rule_fires_once_and_clears_with_hysteresis() {
    let t = RuleTiming { cooldown_ms: 300_000, min_duration_ms: None };
    let mut s = RuleState::default();
    assert_eq!(s.step(t, true, false, 1_000), RuleEvent::Triggered);
    assert!(s.active);
    // Still above the trigger threshold, clear condition not met: no new event.
    assert_eq!(s.step(t, true, false, 2_000), RuleEvent::Nothing);
    // Between the two thresholds: stays active.
    assert_eq!(s.step(t, false, false, 3_000), RuleEvent::Nothing);
    assert!(s.active);
    assert_eq!(s.step(t, false, true, 4_000), RuleEvent::Cleared);
    assert!(!s.active);
    // Fires again within the cooldown: active but not notified.
    assert_eq!(s.step(t, true, false, 5_000), RuleEvent::Nothing);
    assert!(s.active);
    assert_eq!(s.last_notified, Some(1_000));
    s.step(t, false, true, 6_000);
    assert_eq!(s.step(t, true, false, 301_000), RuleEvent::Triggered);
    assert_eq!(s.last_notified, Some(301_000));
}

#[test]
fn alert_rule_waits_for_min_duration() {
    let t = RuleTiming { cooldown_ms: 0, min_duration_ms: Some(60_000) };
    let mut s = RuleState::default();
    assert_eq!(s.step(t, true, false, 0), RuleEvent::Nothing);
    assert_eq!(s.pending_since, Some(0));
    assert_eq!(s.step(t, true, false, 59_999), RuleEvent::Nothing);
    // Trigger drops: the wait restarts.
    assert_eq!(s.step(t, false, false, 60_000), RuleEvent::Nothing);
    assert_eq!(s.pending_since, None);
    assert_eq!(s.step(t, true, false, 70_000), RuleEvent::Nothing);
    assert_eq!(s.step(t, true, false, 130_000), RuleEvent::Triggered);
    assert_eq!((s.active, s.pending_since), (true, None));
}

#[test]
fn alert_rules_evaluated_in_order() {
    let timings = vec![
        RuleTiming { cooldown_ms: 10, min_duration_ms: None },
        RuleTiming { cooldown_ms: 10, min_duration_ms: Some(5) },
    ];
    let mut states = vec![RuleState::default(), RuleState::default()];
    let ev = evaluate_rules(&mut states, &timings, &vec![(true, false), (true, false)], 100);
    assert_eq!(ev, vec![RuleEvent::Triggered, RuleEvent::Nothing]);
    let ev = evaluate_rules(&mut states, &timings, &vec![(false, true), (true, false)], 105);
    assert_eq!(ev, vec![RuleEvent::Cleared, RuleEvent::Triggered]);
}

#[test]
fn rs485_health_totals_sum_every_device() {
    let mut stats = BTreeMap::new();
    record_rs485_success(&mut stats, 1, "BMS", "BMS 1", 100);
    record_rs485_success(&mut stats, 1, "BMS", "BMS 1", 200);
    record_rs485_error(&mut stats, 1, "BMS", "BMS 1", "timeout", 300);
    record_rs485_success(&mut stats, 7, "ET112", "ET112 7", 150);
    record_rs485_error(&mut stats, 7, "ET112", "ET112 7", "CRC mismatch", 250);
    record_rs485_error(&mut stats, 7, "ET112", "ET112 7", "port closed", 350);
    let all: Vec<Rs485DeviceStats> = stats.values().cloned().collect();
    assert_eq!(
        rs485_totals(&all),
        Rs485Totals { successful_polls: 3, timeout_count: 1, crc_error_count: 1, other_error_count: 1 }
    );
    assert_eq!(
        rs485_totals(&Vec::new()),
        Rs485Totals { successful_polls: 0, timeout_count: 0, crc_error_count: 0, other_error_count: 0 }
    );
}

#[test]
fn lowered_error_classes() {
    assert_eq!(error_kind("read timeout after 500 ms"), "timeout");
    assert_eq!(error_kind("aucune réponse du bms 0x01"), "timeout");
    assert_eq!(error_kind("bad crc 0x1234"), "crc");
    assert_eq!(error_kind("Timeout"), "other");
    assert_eq!(error_kind("port closed"), "other");
}
