use daly_bms::bms::dashboards::{Catalog, GridPos, Panel, PanelKind};
use daly_bms::bms::params::{
    format_legend, tail_lines, AlertListQuery, CatalogParams, EdgeHistoryParams,
    EnergyHistoryParams, HistoryParams, LogFileQuery, LogsQuery, PanelDataParams,
};
use daly_bms::bms::promql::{InstantParams, InstantQueryParams, RangeQueryParams};
use daly_bms::bms::state::{recent_first, record_log, LogEntry, LOG_CAPACITY};
use daly_bms::text::{lines_of, replace_all};
use std::collections::VecDeque;

const NOW: i64 = 1_700_000_000_000;

#[test]
fn alert_page_defaults_and_cap() {
    let p = AlertListQuery::default().page();
    assert_eq!((p.limit, p.offset, p.only_active), (100, 0, false));
    assert!(p.severity.is_none());
    let q = AlertListQuery {
        limit: Some(1000),
        offset: Some(20),
        severity: Some("critical".into()),
        active: Some(true),
    };
    let p = q.page();
    assert_eq!((p.limit, p.offset, p.only_active), (500, 20, true));
    assert_eq!(p.severity.as_deref(), Some("critical"));
    assert_eq!(AlertListQuery { limit: Some(7), ..Default::default() }.page().limit, 7);
}

#[test]
fn chart_window_minutes_and_steps() {
    let w = HistoryParams { minutes: None }.window(NOW);
    assert_eq!((w.minutes, w.start_ms, w.end_ms, w.step_ms), (60, NOW - 3_600_000, NOW, 60_000));
    assert_eq!(HistoryParams { minutes: Some(0) }.window(NOW).minutes, 1);
    assert_eq!(HistoryParams { minutes: Some(100) }.window(NOW).step_ms, 300_000);
    let w = HistoryParams { minutes: Some(5000) }.window(NOW);
    assert_eq!((w.minutes, w.step_ms, w.start_ms), (720, 600_000, NOW - 720 * 60_000));
}

#[test]
fn edge_plan_with_metric_and_bms_id() {
    let q = EdgeHistoryParams {
        metric: Some("bms_soc".into()),
        bms_id: Some("1".into()),
        ..Default::default()
    };
    let p = q.plan(NOW).unwrap();
    assert_eq!(p.metric, "bms_soc");
    assert_eq!(p.unit, "%");
    assert_eq!(p.query, "bms_soc{bms_id=\"0x01\"}");
    assert_eq!((p.window.minutes, p.window.step_ms), (360, 180_000));
}

#[test]
fn edge_plan_address_and_legacy_names() {
    let q = EdgeHistoryParams {
        metric: Some("et112_power_w".into()),
        address: Some("8".into()),
        minutes: Some(30),
        ..Default::default()
    };
    let p = q.plan(NOW).unwrap();
    assert_eq!(p.query, "et112_power_w{address=\"0x08\"}");
    assert_eq!(p.unit, "W");
    assert_eq!((p.window.minutes, p.window.step_ms), (30, 60_000));

    let legacy = EdgeHistoryParams {
        measurement: Some("venus_mppt_total".into()),
        field: Some("power_w".into()),
        address: Some("0x07".into()),
        minutes: Some(2000),
        ..Default::default()
    };
    let p = legacy.plan(NOW).unwrap();
    assert_eq!((p.metric.as_str(), p.unit.as_str()), ("solar_total_w", "W"));
    assert_eq!(p.query, "solar_total_w{address=\"0x07\"}");
    assert_eq!((p.window.minutes, p.window.step_ms), (1440, 600_000));

    let bms_without_id = EdgeHistoryParams {
        measurement: Some("bms_status".into()),
        field: Some("current".into()),
        bms_id: Some(String::new()),
        ..Default::default()
    };
    assert_eq!(bms_without_id.plan(NOW).unwrap().query, "bms_current");

    let unknown = EdgeHistoryParams {
        measurement: Some("bms_status".into()),
        field: Some("power".into()),
        ..Default::default()
    };
    assert!(unknown.plan(NOW).is_none());
    assert!(EdgeHistoryParams::default().plan(NOW).is_none());
}

#[test]
fn energy_plan_periods() {
    let day = EnergyHistoryParams { period: None }.plan(NOW);
    assert_eq!(day.period, "day");
    assert_eq!((day.start_ms, day.step_ms, day.window), (NOW - 86_400_000, 3_600_000, "1h"));
    assert_eq!(day.queries.len(), 9);
    assert_eq!(day.queries[0], "avg_over_time(solar_total_w[1h])");
    let year = EnergyHistoryParams { period: Some("year".into()) }.plan(NOW);
    assert_eq!((year.step_ms, year.window), (2_592_000_000, "30d"));
    assert_eq!(year.start_ms, NOW - 365 * 86_400_000);
    assert_eq!(year.queries[3], "increase(et112_energy_import_wh{address=\"0x07\"}[30d])");
    assert_eq!(year.queries[8], "max_over_time(venus_shunt_ah_discharged_today[30d])");
    let week = EnergyHistoryParams { period: Some("week".into()) }.plan(NOW);
    assert_eq!((week.start_ms, week.window), (NOW - 7 * 86_400_000, "1d"));
    let other = EnergyHistoryParams { period: Some("decade".into()) }.plan(NOW);
    assert_eq!((other.period.as_str(), other.window), ("decade", "1h"));
}

fn kind_panel(id: &str, kind: PanelKind) -> Panel {
    Panel {
        id: id.to_string(),
        title: id.to_string(),
        kind,
        grid_pos: GridPos { x: 0, y: 0, w: 6, h: 4 },
        unit: String::new(),
        queries: vec![],
        decimals: None,
    }
}

#[test]
fn catalog_selection_filters_rows_and_kinds() {
    let cat = Catalog::load_default(vec![(
        String::new(),
        vec![
            kind_panel("1", PanelKind::Row),
            kind_panel("2", PanelKind::Stat),
            kind_panel("3", PanelKind::TimeSeries),
            kind_panel("4", PanelKind::Stat),
        ],
    )]);
    let ids = |v: Vec<&Panel>| v.iter().map(|p| p.id.clone()).collect::<Vec<_>>();
    assert_eq!(ids(CatalogParams::default().select(&cat)), vec!["2", "3", "4"]);
    let with_rows = CatalogParams { kind: None, include_rows: Some(true) };
    assert_eq!(ids(with_rows.select(&cat)), vec!["1", "2", "3", "4"]);
    let stats = CatalogParams { kind: Some("stat".into()), include_rows: None };
    assert_eq!(ids(stats.select(&cat)), vec!["2", "4"]);
    let rows_only = CatalogParams { kind: Some("row".into()), include_rows: None };
    assert!(rows_only.select(&cat).is_empty());
}

#[test]
fn panel_window_defaults_and_auto_step() {
    let w = PanelDataParams::default().window(NOW);
    assert_eq!((w.from_ms, w.to_ms, w.step_ms), (NOW - 3_600_000, NOW, 18_000));
    let short = PanelDataParams { from: Some(0), to: Some(10_000), step: None }.window(NOW);
    assert_eq!(short.step_ms, 5_000);
    let long = PanelDataParams { from: Some(0), to: Some(1000 * 86_400_000), step: None };
    assert_eq!(long.window(NOW).step_ms, 86_400_000);
    let inverted = PanelDataParams { from: Some(5_000), to: Some(1_000), step: None };
    assert_eq!(inverted.window(NOW).step_ms, 5_000);
    let explicit = PanelDataParams { from: None, to: None, step: Some(0) }.window(NOW);
    assert_eq!(explicit.step_ms, 1_000);
    let explicit = PanelDataParams { from: None, to: Some(NOW), step: Some(60) }.window(NOW);
    assert_eq!(explicit.step_ms, 60_000);
}

#[test]
fn log_limits() {
    assert_eq!(LogsQuery { limit: None }.effective_limit(), 100);
    assert_eq!(LogsQuery { limit: Some(500) }.effective_limit(), 200);
    assert_eq!(LogsQuery { limit: Some(3) }.effective_limit(), 3);
    assert_eq!(LogFileQuery { name: None, lines: None }.line_limit(), 500);
    assert_eq!(LogFileQuery { name: None, lines: Some(10_000) }.line_limit(), 5000);
}

#[test]
fn log_file_name_checks() {
    assert_eq!(LogFileQuery { name: None, lines: None }.file_name(), Err("missing name"));
    let q = |n: &str| LogFileQuery { name: Some(n.to_string()), lines: None };
    assert_eq!(q("../etc/passwd").file_name(), Err("invalid filename"));
    assert_eq!(q("a/b").file_name(), Err("invalid filename"));
    assert_eq!(q("x..y").file_name(), Err("invalid filename"));
    assert_eq!(q("daly-bms.log.2026-04-30").file_name(), Ok("daly-bms.log.2026-04-30"));
    assert_eq!(q("a.b.c").file_name(), Ok("a.b.c"));
}

#[test]
fn tail_lines_keeps_the_last_lines_in_order() {
    assert_eq!(tail_lines("a\nb\r\nc\n", 2), vec!["b", "c"]);
    assert_eq!(tail_lines("a\n\nb", 10), vec!["a", "", "b"]);
    assert_eq!(tail_lines("x\r", 1), vec!["x\r"]);
    assert!(tail_lines("", 3).is_empty());
    assert!(tail_lines("a\nb", 0).is_empty());
    let text = "l1\nl2\r\n\nl4\r\r\nl5";
    let expected: Vec<String> = text.lines().map(|l| l.to_string()).collect();
    assert_eq!(lines_of(text), expected);
}

#[test]
fn legend_formats() {
    let labels = vec![
        ("__name__".to_string(), "et112_power_w".to_string()),
        ("address".to_string(), "0x08".to_string()),
    ];
    assert_eq!(format_legend(Some("Load {{address}}"), &labels), "Load 0x08");
    assert_eq!(format_legend(Some("{{address}}/{{address}} {{zone}}"), &labels), "0x08/0x08 {{zone}}");
    assert_eq!(format_legend(None, &labels), "et112_power_w");
    assert_eq!(format_legend(None, &vec![]), "");
}

#[test]
fn replace_matches_std() {
    for (s, p, r) in [("aaa", "aa", "b"), ("abcabc", "bc", "X"), ("xyz", "q", "r"), ("", "a", "b")] {
        assert_eq!(replace_all(s, p, r), s.replace(p, r));
    }
}

fn entry(i: usize) -> LogEntry {
    LogEntry { timestamp: format!("t{i}"), level: "INFO".into(), message: format!("m{i}") }
}

#[test]
fn log_buffer_bounded_and_newest_first() {
    let mut buf = VecDeque::new();
    for i in 0..(LOG_CAPACITY + 5) {
        record_log(&mut buf, entry(i));
    }
    assert_eq!(buf.len(), LOG_CAPACITY);
    assert_eq!(buf.front().unwrap().message, "m5");
    let recent = recent_first(&buf, 3);
    let msgs: Vec<&str> = recent.iter().map(|e| e.message.as_str()).collect();
    assert_eq!(msgs, vec!["m204", "m203", "m202"]);
    assert_eq!(recent_first(&buf, 1000).len(), LOG_CAPACITY);
}

fn range(start: i64, end: i64, step: i64) -> RangeQueryParams {
    RangeQueryParams { query: "bms_soc".into(), start, end, step }
}

#[test]
fn range_query_checks_in_order() {
    assert!(range(0, 10, 1).check(true).is_ok());
    assert!(range(10, 10, 1).check(true).is_ok());
    let e = range(11, 10, 1).check(true).unwrap_err();
    assert_eq!((e.status.as_str(), e.error.as_str()), ("error", "start must be before end"));
    assert_eq!(e.error_type.as_deref(), Some("bad_data"));
    let e = range(0, 10, 0).check(true).unwrap_err();
    assert_eq!(e.error, "step must be positive");
    assert_eq!(e.error_type.as_deref(), Some("bad_data"));
    let e = range(11, 10, -1).check(false).unwrap_err();
    assert_eq!(e.error, "metrics-store backend not enabled");
    assert_eq!(e.error_type.as_deref(), Some("unavailable"));
}

#[test]
fn instant_query_time_defaults_to_now() {
    let q = InstantQueryParams { query: "up".into(), time: None };
    assert_eq!(q.eval_time(true, NOW).unwrap(), NOW);
    let q = InstantQueryParams { query: "up".into(), time: Some(42) };
    assert_eq!(q.eval_time(true, NOW).unwrap(), 42);
    assert_eq!(q.eval_time(false, NOW).unwrap_err().error_type.as_deref(), Some("unavailable"));
    let p = InstantParams { query: "up".into(), time: None };
    assert_eq!(p.eval_time(NOW), NOW);
    let p = InstantParams { query: "up".into(), time: Some(7) };
    assert_eq!(p.eval_time(NOW), 7);
}
