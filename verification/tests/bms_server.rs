use daly_bms::bms::alerts::Severity;
use daly_bms::bms::chart::{infer_unit, normalize_address};
use daly_bms::bms::dashboards::{Catalog, GridPos, Panel, PanelKind, PanelQuery};
use daly_bms::bms::freshness::FreshnessRegistry;
use daly_bms::bms::prometheus_import::parse_labels;
use daly_bms::bms::promql::{backend_unavailable, exec_error};
use daly_bms::bms::redb_writes::{
    inverter_mode_to_code, inverter_state_to_code, mppt_state_to_code, shunt_state_to_code,
    ProcessMemoryStats, RateLimiter,
};
use daly_bms::bms::state::{BmsRingBuffer, Et112RingBuffer, TasmotaRingBuffer};
use daly_bms::bms::tabs::{storage_key, validate_tab, TabQuery};

#[test]
fn validate_tab_accepts_valid() {
    assert!(validate_tab("default").is_ok());
    assert!(validate_tab("solar_pv").is_ok());
    assert!(validate_tab("abc-123").is_ok());
    assert!(validate_tab("a").is_ok());
    assert!(validate_tab(&"a".repeat(32)).is_ok());
}

#[test]
fn validate_tab_rejects_invalid() {
    assert!(validate_tab("").is_err());
    assert!(validate_tab(&"a".repeat(33)).is_err());
    assert!(validate_tab("Default").is_err());
    assert!(validate_tab("../foo").is_err());
    assert!(validate_tab("a b").is_err());
    assert!(validate_tab("a:b").is_err());
    assert!(validate_tab("a'b").is_err());
}

#[test]
fn validate_tab_error_messages() {
    assert_eq!(validate_tab(""), Err("tab length 1..=32"));
    assert_eq!(validate_tab(&"é".repeat(17)), Err("tab length 1..=32"));
    assert_eq!(validate_tab("é"), Err("tab must match [a-z0-9_-]+"));
    assert_eq!(validate_tab("ok_1"), Ok("ok_1"));
}

#[test]
fn storage_key_keeps_default_user_for_default_tab() {
    assert_eq!(storage_key("default"), "default");
    assert_eq!(storage_key("solar_pv"), "default:solar_pv");
    assert_eq!(storage_key("custom-1"), "default:custom-1");
}

#[test]
fn tab_query_resolution() {
    assert_eq!(TabQuery { tab: None }.resolve(), Ok("default".to_string()));
    assert_eq!(TabQuery { tab: Some("pv".into()) }.resolve(), Ok("default:pv".to_string()));
    assert_eq!(TabQuery { tab: Some("P V".into()) }.resolve(), Err("tab must match [a-z0-9_-]+"));
}

fn panel(id: &str, y: u32, h: u32) -> Panel {
    Panel {
        id: id.to_string(),
        title: format!("panel {id}"),
        kind: PanelKind::Stat,
        grid_pos: GridPos { x: 0, y, w: 6, h },
        unit: String::new(),
        queries: vec![PanelQuery { ref_id: "A".into(), expr: "up".into(), legend: None }],
        decimals: None,
    }
}

#[test]
fn catalog_prefixes_stacks_and_dedups() {
    let cat = Catalog::load_default(vec![
        (String::new(), vec![panel("1", 0, 4), panel("2", 4, 8)]),
        ("bms".to_string(), vec![panel("1", 0, 3), panel("2", 2, 2)]),
        ("bms".to_string(), vec![panel("1", 0, 1)]),
        ("et112".to_string(), vec![]),
        ("em".to_string(), vec![panel("9", 1, 1)]),
    ]);
    let ids: Vec<&str> = cat.panels().iter().map(|p| p.id.as_str()).collect();
    assert_eq!(ids, vec!["1", "2", "bms.1", "bms.2", "em.9"]);
    // first source: y unchanged, bottom = 12 → next source starts at 13
    assert_eq!(cat.find("2").unwrap().grid_pos.y, 4);
    assert_eq!(cat.find("bms.1").unwrap().grid_pos.y, 13);
    assert_eq!(cat.find("bms.2").unwrap().grid_pos.y, 15);
    // duplicate bms.1 of the third source (y would be 17) is dropped
    // em starts after: third source bottom 18 → 19, empty source keeps 19 → 20? no: empty bottom 0 → 1
    assert_eq!(cat.find("em.9").unwrap().grid_pos.y, 2);
    assert!(cat.find("nope").is_none());
    assert_eq!(cat.find("bms.1").unwrap().title, "panel 1");
}

#[test]
fn load_default_includes_all_sources() {
    // Sources of the sizes of the shipped dashboards: the legacy one unprefixed, then the prefixed ones.
    let prefixes = ["bms", "et112", "mppt", "shunt", "inv", "temp", "heat", "solar", "irr", "ats", "tasmota", "shelly", "wh", "pi5", "em"];
    let mut sources = vec![(String::new(), (1..=45).map(|i| panel(&i.to_string(), i, 1)).collect::<Vec<_>>())];
    for p in prefixes {
        sources.push((p.to_string(), (1..=14).map(|i| panel(&i.to_string(), 0, 2)).collect()));
    }
    let cat = Catalog::load_default(sources);
    let panels = cat.panels();
    assert!(panels.len() >= 200, "trop peu de panels: {}", panels.len());
    let mut seen = std::collections::HashSet::new();
    for p in panels {
        assert!(seen.insert(&p.id), "ID dupliqué: {}", p.id);
    }
    for prefix in prefixes {
        let pre = format!("{prefix}.");
        assert!(panels.iter().any(|p| p.id.starts_with(&pre)));
    }
}

#[test]
fn panel_kinds() {
    assert_eq!(PanelKind::from_grafana("timeseries"), PanelKind::TimeSeries);
    assert_eq!(PanelKind::from_grafana("bargauge"), PanelKind::BarGauge);
    assert_eq!(PanelKind::from_grafana("piechart"), PanelKind::Unknown);
}

#[test]
fn addresses_are_normalized() {
    assert_eq!(normalize_address("0x01"), "0x01");
    assert_eq!(normalize_address("0X1A"), "0X1A");
    assert_eq!(normalize_address("1"), "0x01");
    assert_eq!(normalize_address("1f"), "0x1f");
    assert_eq!(normalize_address("100"), "0x100");
    assert_eq!(normalize_address("+a"), "0x0a");
    assert_eq!(normalize_address("4294967295"), "0xffffffff");
    assert_eq!(normalize_address("bms"), "bms");
    assert_eq!(normalize_address(""), "");
    for a in ["7", "3e", "ff", "12345", "4294967295", "xyz"] {
        let expected = if let Ok(n) = u32::from_str_radix(a, 16) {
            format!("{:#04x}", n)
        } else if let Ok(n) = a.parse::<u32>() {
            format!("{:#04x}", n)
        } else {
            a.to_string()
        };
        assert_eq!(normalize_address(a), expected);
    }
}

#[test]
fn units_are_inferred() {
    assert_eq!(infer_unit("pv_power_w"), "W");
    assert_eq!(infer_unit("energy_kwh"), "kWh");
    assert_eq!(infer_unit("bms_current"), "A");
    assert_eq!(infer_unit("bms_voltage_v"), "V");
    assert_eq!(infer_unit("bms_soc"), "%");
    assert_eq!(infer_unit("irradiance_wm2"), "W/m²");
    assert_eq!(infer_unit("ac_freq_hz"), "Hz");
    assert_eq!(infer_unit("temperature"), "");
}

#[test]
fn labels_are_parsed() {
    let l = parse_labels(r#"rule="charge_current",result="ok""#);
    assert_eq!(l, vec![("rule".to_string(), "charge_current".to_string()), ("result".to_string(), "ok".to_string())]);
    let l = parse_labels(r#" label = "a}b" "#);
    assert_eq!(l, vec![("label".to_string(), "a}b".to_string())]);
    let l = parse_labels(r#"k="a\"b\\c",,, j="x""#);
    assert_eq!(l, vec![("k".to_string(), "a\"b\\c".to_string()), ("j".to_string(), "x".to_string())]);
    assert_eq!(parse_labels(r#"k=v"#), vec![]);
    assert_eq!(parse_labels(r#"novalue"#), vec![]);
    assert_eq!(parse_labels(r#"k="unterminated"#), vec![("k".to_string(), "unterminated".to_string())]);
    assert_eq!(parse_labels(""), vec![]);
}

#[test]
fn api_errors() {
    let e = backend_unavailable();
    assert_eq!(e.status, "error");
    assert_eq!(e.error, "metrics-store backend not enabled");
    assert_eq!(e.error_type.as_deref(), Some("unavailable"));
    let e = exec_error("boom".into());
    assert_eq!(e.error, "boom");
    assert_eq!(e.error_type.as_deref(), Some("execution"));
}

#[test]
fn severity_names() {
    assert_eq!(Severity::Warning.as_str(), "warning");
    assert_eq!(Severity::Critical.as_str(), "critical");
}

#[test]
fn rate_limiter_spaces_writes_per_series() {
    let mut rl = RateLimiter::new();
    assert!(rl.allow_at("bms_voltage:0x01", 1_000, 5_000));
    assert!(!rl.allow_at("bms_voltage:0x01", 3_000, 5_000));
    assert!(rl.allow_at("bms_voltage:0x02", 3_000, 5_000));
    assert!(rl.allow_at("bms_voltage:0x01", 6_000, 5_000));
    assert!(!rl.allow_at("bms_voltage:0x01", 10_999, 5_000));
    assert!(rl.allow_at("bms_voltage:0x01", 11_000, 5_000));
    assert!(rl.allow("fresh", 5_000));
    assert!(!rl.allow("fresh", 60_000));
}

#[test]
fn state_codes() {
    assert_eq!(mppt_state_to_code("Off"), Some(0));
    assert_eq!(mppt_state_to_code("Power supply"), Some(11));
    assert_eq!(mppt_state_to_code("State 245"), Some(245));
    assert_eq!(mppt_state_to_code("State State 7"), Some(7));
    assert_eq!(mppt_state_to_code("State -3"), Some(-3));
    assert_eq!(mppt_state_to_code("State x"), None);
    assert_eq!(mppt_state_to_code("State 99999999999"), None);
    assert_eq!(mppt_state_to_code("Unknown"), None);
    assert_eq!(shunt_state_to_code("Charging"), 1);
    assert_eq!(shunt_state_to_code("charging"), 3);
    assert_eq!(inverter_state_to_code("Inverting"), 2);
    assert_eq!(inverter_state_to_code("PASSTHROUGH"), 4);
    assert_eq!(inverter_state_to_code("fault"), 5);
    assert_eq!(inverter_mode_to_code("Inverter"), 1);
    assert_eq!(inverter_mode_to_code("x"), 3);
}

#[test]
fn memory_samples_skip_missing_fields() {
    let m = ProcessMemoryStats { rss_bytes: Some(10), jemalloc_active: Some(3), ..Default::default() };
    assert_eq!(m.samples(), vec![("process_rss_bytes", 10), ("process_jemalloc_active_bytes", 3)]);
}

#[test]
fn multiple_sources_tracked_independently() {
    let mut r = FreshnessRegistry::new();
    r.touch("et112_0x07");
    r.touch("venus_mppt");
    assert_eq!(r.ages_millis().len(), 2);
}

#[test]
fn touch_resets_age() {
    let mut r = FreshnessRegistry::new();
    r.touch_at("bms_0x01", 1_000);
    assert_eq!(r.ages_at(1_500), vec![("bms_0x01".to_string(), 500)]);
    r.touch_at("bms_0x01", 1_600);
    assert_eq!(r.ages_at(1_600), vec![("bms_0x01".to_string(), 0)]);
}

#[test]
fn ring_buffers_keep_latest() {
    let mut b = Et112RingBuffer::new(2);
    assert!(b.latest().is_none());
    b.push(1);
    b.push(2);
    b.push(3);
    assert_eq!(b.buffer.iter().copied().collect::<Vec<_>>(), vec![2, 3]);
    assert_eq!(b.latest(), Some(&3));
    let mut t = TasmotaRingBuffer::new(0);
    t.push("a");
    t.push("b");
    assert_eq!(t.buffer.len(), 1);
    assert_eq!(t.latest(), Some(&"b"));
    let mut m = BmsRingBuffer::new(3);
    for soc in [50u8, 51, 52, 53] {
        m.push(soc);
    }
    assert_eq!(m.buffer.iter().copied().collect::<Vec<_>>(), vec![51, 52, 53]);
    assert_eq!(m.latest(), Some(&53));
}
