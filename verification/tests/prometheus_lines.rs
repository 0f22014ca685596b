use daly_bms::bms::prometheus_import::{sample_parts, SampleParts};

struct Sample {
    metric: String,
    labels: Vec<(String, String)>,
    value: f64,
    ts_ms: i64,
}

/// A sample line read as the import endpoint reads it: the library splits
/// the line, the value is then read as a finite number and a missing
/// timestamp is the current time.
fn parse_line(line: &str) -> Option<Sample> {
    let SampleParts { name, labels, value, ts_ms } = sample_parts(line)?;
    let value: f64 = value.parse().ok()?;
    if !value.is_finite() {
        return None;
    }
    let now = std::time::SystemTime::now()
        .duration_since(std::time::UNIX_EPOCH)
        .unwrap()
        .as_millis() as i64;
    Some(Sample { metric: name, labels, value, ts_ms: ts_ms.unwrap_or(now) })
}

#[test]
fn test_simple_metric() {
    let s = parse_line("em_cpu_percent 4.2 1700000000000").unwrap();
    assert_eq!(s.metric, "em_cpu_percent");
    assert_eq!(s.value, 4.2);
    assert_eq!(s.ts_ms, 1700000000000);
}

#[test]
fn test_metric_with_labels() {
    let s = parse_line(r#"em_load_avg{window="1m"} 0.45 1700000000000"#).unwrap();
    assert_eq!(s.metric, "em_load_avg");
    assert_eq!(s.value, 0.45);
    assert!(s.labels.iter().any(|(k, v)| k == "window" && v == "1m"));
}

#[test]
fn test_multi_labels() {
    let s = parse_line(r#"em_process_cpu_percent{process="daly-bms-server"} 1.5 1700000000000"#)
        .unwrap();
    assert_eq!(s.metric, "em_process_cpu_percent");
    assert!(s.labels.iter().any(|(k, v)| k == "process" && v == "daly-bms-server"));
}

#[test]
fn test_no_timestamp() {
    let s = parse_line("pi5_cpu_percent 15.3").unwrap();
    assert_eq!(s.metric, "pi5_cpu_percent");
    assert_eq!(s.value, 15.3);
    assert!(s.ts_ms > 0);
}

#[test]
fn test_nan_rejected() {
    assert!(parse_line("bad_metric NaN 1700000000000").is_none());
}

#[test]
fn test_comment_ignored() {
    assert!(parse_line("# HELP em_cpu_percent CPU usage").is_none());
}

#[test]
fn test_two_labels_parsed_correctly() {
    let s = parse_line(r#"rule_eval_total{rule="charge_current",result="ok"} 42 1700000000000"#)
        .unwrap();
    assert_eq!(s.metric, "rule_eval_total");
    assert_eq!(s.value, 42.0);
    let has_rule = s.labels.iter().any(|(k, v)| k == "rule" && v == "charge_current");
    let has_result = s.labels.iter().any(|(k, v)| k == "result" && v == "ok");
    assert!(has_rule, "label 'rule' manquant ou mal parsé");
    assert!(has_result, "label 'result' manquant ou mal parsé");
}

#[test]
fn test_closing_brace_in_label_value() {
    let s = parse_line(r#"my_metric{label="a}b"} 1.0 1700000000000"#).unwrap();
    assert_eq!(s.metric, "my_metric");
    assert!(s.labels.iter().any(|(k, v)| k == "label" && v == "a}b"));
}

#[test]
fn sample_parts_splits_and_reads_timestamps() {
    let p = sample_parts("  up{job=\"x\"}   1   -42 extra").unwrap();
    assert_eq!(p.name, "up");
    assert_eq!(p.labels, vec![("job".to_string(), "x".to_string())]);
    assert_eq!((p.value.as_str(), p.ts_ms), ("1", Some(-42)));
    let p = sample_parts("m 2 notanumber").unwrap();
    assert_eq!((p.value.as_str(), p.ts_ms), ("2", None));
    let p = sample_parts("m 2 9223372036854775808").unwrap();
    assert_eq!(p.ts_ms, None);
    assert!(sample_parts("novalue").is_none());
    assert!(sample_parts("name ").is_none());
    assert!(sample_parts("{a=\"b\"} 1").is_none());
    let p = sample_parts("m{} 3").unwrap();
    assert_eq!((p.name.as_str(), p.labels.len()), ("m", 0));
}
