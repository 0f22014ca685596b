use daly_bms::bms::dashboards::{GridPos, PanelKind};
use daly_bms::bms::grafana::{parse_dashboard, DashboardError};

#[test]
fn parse_minimal() {
    let json = r#"{
        "panels": [
            {
                "id": 1,
                "title": "Solar",
                "type": "timeseries",
                "gridPos": {"x": 0, "y": 0, "w": 12, "h": 8},
                "fieldConfig": {"defaults": {"unit": "watt"}},
                "targets": [
                    {"refId": "A", "expr": "solar_total_w", "legendFormat": "PV"}
                ]
            }
        ]
    }"#;
    let panels = parse_dashboard(json).unwrap();
    assert_eq!(panels.len(), 1);
    assert_eq!(panels[0].id, "1");
    assert_eq!(panels[0].title, "Solar");
    assert_eq!(panels[0].kind, PanelKind::TimeSeries);
    assert_eq!(panels[0].unit, "watt");
    assert_eq!(panels[0].queries.len(), 1);
    assert_eq!(panels[0].queries[0].expr, "solar_total_w");
}

#[test]
fn nested_rows_defaults_and_filters() {
    let json = r#"{"panels": [
        {"id": 10, "type": "row", "panels": [
            {"id": 11, "type": "stat", "gridPos": {"x": 3},
             "fieldConfig": {"defaults": {"decimals": 42}},
             "targets": [{"expr": ""}, {"expr": "up", "legendFormat": ""}]},
            {"title": "no id", "panels": [{"id": 12, "type": "gauge"}]}
        ]},
        {"id": 20, "type": "weird"}
    ]}"#;
    let panels = parse_dashboard(json).unwrap();
    let ids: Vec<&str> = panels.iter().map(|p| p.id.as_str()).collect();
    assert_eq!(ids, vec!["10", "11", "12", "20"]);
    assert_eq!(panels[0].kind, PanelKind::Row);
    let p = &panels[1];
    assert_eq!(p.grid_pos, GridPos { x: 3, y: 0, w: 12, h: 8 });
    assert_eq!(p.decimals, Some(10));
    assert_eq!(p.queries.len(), 1);
    assert_eq!(p.queries[0].ref_id, "A");
    assert_eq!(p.queries[0].legend, None);
    assert_eq!(panels[2].grid_pos, GridPos { x: 0, y: 0, w: 0, h: 0 });
    assert_eq!(panels[2].title, "");
    assert_eq!(panels[3].kind, PanelKind::Unknown);
}

#[test]
fn dashboard_errors() {
    assert!(matches!(parse_dashboard("{not json"), Err(DashboardError::Json(_))));
    assert!(matches!(parse_dashboard(r#"{"panels": 3}"#), Err(DashboardError::NoPanels)));
    assert!(matches!(parse_dashboard("[]"), Err(DashboardError::NoPanels)));
    assert!(parse_dashboard(r#"{"panels": []}"#).unwrap().is_empty());
}
