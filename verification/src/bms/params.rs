//! Query parameters of the HTTP API and what the handlers derive from them
//! before reaching a store: effective limits, time windows and step of a
//! range query, the PromQL expression of a chart, the panels of the catalogue
//! that a request selects, and the checks on a log file request.
use vstd::prelude::*;
use crate::bms::dashboards::{kind_of, Catalog, Panel, PanelKind};
use crate::bms::chart::{infer_unit, normalize_address, normalized_address, unit_of};
use crate::text::{
    contains_char, contains_str, is_prefix, lines_of, occurs_at, push_char, replace_all, replaced,
    starts_with, str_eq, text_lines, views_of,
};

verus! {

/// `x.clamp(lo, hi)` on integers.
pub open spec fn clamped(x: int, lo: int, hi: int) -> int {
    if x < lo {
        lo
    } else if x > hi {
        hi
    } else {
        x
    }
}

/// `o.unwrap_or(d).min(cap)`.
pub open spec fn capped_or(o: Option<usize>, d: usize, cap: usize) -> usize {
    let v = match o {
        Some(n) => n,
        None => d,
    };
    if v < cap {
        v
    } else {
        cap
    }
}

fn capped_or_exec(o: Option<usize>, d: usize, cap: usize) -> (r: usize)
    ensures
        r == capped_or(o, d, cap),
{
    let v = match o {
        Some(n) => n,
        None => d,
    };
    if v < cap {
        v
    } else {
        cap
    }
}

// ---------------------------------------------------------------------------
// Alert journal
// ---------------------------------------------------------------------------

/// `?limit=&offset=&severity=&active=` of the alert list.
#[derive(Debug, Clone, Default)]
pub struct AlertListQuery {
    /// Most events returned (100 when absent, never more than 500).
    pub limit: Option<usize>,
    /// Pagination offset.
    pub offset: Option<usize>,
    /// `critical` or `warning`.
    pub severity: Option<String>,
    /// Only the events still triggered.
    pub active: Option<bool>,
}

/// What the alert journal is asked for.
#[derive(Debug, Clone)]
pub struct AlertPage {
    pub limit: usize,
    pub offset: usize,
    pub only_active: bool,
    pub severity: Option<String>,
}

impl AlertListQuery {
    /// Effective page: limit 100 by default and at most 500, offset 0 and
    /// every event by default, severity filter as given.
    pub fn page(self) -> (p: AlertPage)
        ensures
            p.limit == capped_or(self.limit, 100, 500),
            p.offset == (match self.offset {
                Some(o) => o,
                None => 0,
            }),
            p.only_active == (self.active == Some(true)),
            p.severity == self.severity,
    {
        let limit = capped_or_exec(self.limit, 100, 500);
        let offset = match self.offset {
            Some(o) => o,
            None => 0,
        };
        let only_active = match self.active {
            Some(b) => b,
            None => false,
        };
        AlertPage { limit, offset, only_active, severity: self.severity }
    }
}

// ---------------------------------------------------------------------------
// Range windows of the chart endpoints
// ---------------------------------------------------------------------------

/// A range query window, in epoch milliseconds.
#[derive(Debug, Clone, Copy, PartialEq, Eq, Structural)]
pub struct TimeWindow {
    /// Span in minutes.
    pub minutes: i64,
    pub start_ms: i64,
    pub end_ms: i64,
    pub step_ms: i64,
}

/// Span of the overview chart: 60 minutes by default, within 1..=720.
pub open spec fn chart_minutes(m: Option<u32>) -> int {
    clamped(
        match m {
            Some(v) => v as int,
            None => 60,
        },
        1,
        720,
    )
}

/// Step of the overview chart: 1 min up to an hour, 5 min up to 6 hours,
/// 10 min beyond.
pub open spec fn chart_step_ms(minutes: int) -> int {
    if minutes <= 60 {
        60_000
    } else if minutes <= 360 {
        300_000
    } else {
        600_000
    }
}

/// Span of the per-device chart: 360 minutes by default, within 1..=1440.
pub open spec fn edge_minutes(m: Option<u32>) -> int {
    clamped(
        match m {
            Some(v) => v as int,
            None => 360,
        },
        1,
        1440,
    )
}

/// Step of the per-device chart: 1 min up to an hour, 3 min up to 6 hours,
/// 10 min beyond.
pub open spec fn edge_step_ms(minutes: int) -> int {
    if minutes <= 60 {
        60_000
    } else if minutes <= 360 {
        180_000
    } else {
        600_000
    }
}

/// The window of `minutes` that ends at `now_ms`.
pub open spec fn window_ending(now_ms: int, minutes: int, step_ms: int) -> TimeWindow {
    TimeWindow {
        minutes: minutes as i64,
        start_ms: (now_ms - minutes * 60_000) as i64,
        end_ms: now_ms as i64,
        step_ms: step_ms as i64,
    }
}

fn clamp_minutes(m: Option<u32>, default: u32, hi: u32) -> (r: i64)
    requires
        1 <= default <= hi,
    ensures
        r == clamped(
            match m {
                Some(v) => v as int,
                None => default as int,
            },
            1,
            hi as int,
        ),
{
    let v = match m {
        Some(v) => v,
        None => default,
    };
    if v < 1 {
        1
    } else if v > hi {
        hi as i64
    } else {
        v as i64
    }
}

/// `?minutes=` of the overview chart.
#[derive(Debug, Clone, Copy, PartialEq, Eq, Structural, Default)]
pub struct HistoryParams {
    pub minutes: Option<u32>,
}

/// Overview chart series: solar power, mean state of charge, house load.
pub const CHART_SOLAR_QUERY: &'static str = "solar_total_w";
pub const CHART_SOC_QUERY: &'static str = "avg(bms_soc)";
pub const CHART_LOAD_QUERY: &'static str = "et112_power_w{address=\"0x08\"}";

impl HistoryParams {
    /// Window of the overview chart ending at `now_ms`.
    pub fn window(&self, now_ms: i64) -> (w: TimeWindow)
        requires
            now_ms >= i64::MIN + 720 * 60_000,
        ensures
            w == window_ending(
                now_ms as int,
                chart_minutes(self.minutes),
                chart_step_ms(chart_minutes(self.minutes)),
            ),
    {
        let minutes = clamp_minutes(self.minutes, 60, 720);
        let step_ms: i64 = if minutes <= 60 {
            60_000
        } else if minutes <= 360 {
            300_000
        } else {
            600_000
        };
        TimeWindow { minutes, start_ms: now_ms - minutes * 60_000, end_ms: now_ms, step_ms }
    }
}

// ---------------------------------------------------------------------------
// Per-device chart
// ---------------------------------------------------------------------------

/// Metric and unit named by a legacy (InfluxDB) measurement and field.
pub open spec fn legacy_metric(measurement: Seq<char>, field: Seq<char>) -> Option<
    (Seq<char>, Seq<char>),
> {
    if measurement == "bms_status"@ && field == "current"@ {
        Some(("bms_current"@, "A"@))
    } else if measurement == "bms_status"@ && field == "soc"@ {
        Some(("bms_soc"@, "%"@))
    } else if measurement == "et112_status"@ && field == "power_w"@ {
        Some(("et112_power_w"@, "W"@))
    } else if measurement == "et112_status"@ && field == "current_a"@ {
        Some(("et112_current_a"@, "A"@))
    } else if measurement == "venus_mppt_total"@ && field == "power_w"@ {
        Some(("solar_total_w"@, "W"@))
    } else if measurement == "venus_mppt_total"@ && field == "current_a"@ {
        Some(("mppt_power_w"@, "W"@))
    } else if measurement == "venus_smartshunt"@ && field == "current_a"@ {
        Some(("venus_shunt_current_a"@, "A"@))
    } else if measurement == "venus_smartshunt"@ && field == "power_w"@ {
        Some(("venus_shunt_power_w"@, "W"@))
    } else if measurement == "venus_inverter"@ && field == "ac_out_power_w"@ {
        Some(("venus_inverter_ac_output_power_w"@, "W"@))
    } else if measurement == "venus_inverter"@ && field == "dc_power_w"@ {
        Some(("venus_inverter_power_w"@, "W"@))
    } else if measurement == "solar_power"@ && field == "mppt_power_w"@ {
        Some(("mppt_power_w"@, "W"@))
    } else if measurement == "inverter_status"@ && field == "dc_power_w"@ {
        Some(("venus_inverter_power_w"@, "W"@))
    } else if measurement == "inverter_status"@ && field == "ac_out_power_w"@ {
        Some(("venus_inverter_ac_output_power_w"@, "W"@))
    } else {
        None
    }
}

fn legacy_metric_exec(measurement: &str, field: &str) -> (r: Option<(&'static str, &'static str)>)
    ensures
        match r {
            Some((m, u)) => legacy_metric(measurement@, field@) == Some((m@, u@)),
            None => legacy_metric(measurement@, field@) is None,
        },
{
    let bms = str_eq(measurement, "bms_status");
    let et112 = str_eq(measurement, "et112_status");
    let mppt = str_eq(measurement, "venus_mppt_total");
    let shunt = str_eq(measurement, "venus_smartshunt");
    let inverter = str_eq(measurement, "venus_inverter");
    let solar = str_eq(measurement, "solar_power");
    let inverter_status = str_eq(measurement, "inverter_status");
    if bms && str_eq(field, "current") {
        Some(("bms_current", "A"))
    } else if bms && str_eq(field, "soc") {
        Some(("bms_soc", "%"))
    } else if et112 && str_eq(field, "power_w") {
        Some(("et112_power_w", "W"))
    } else if et112 && str_eq(field, "current_a") {
        Some(("et112_current_a", "A"))
    } else if mppt && str_eq(field, "power_w") {
        Some(("solar_total_w", "W"))
    } else if mppt && str_eq(field, "current_a") {
        Some(("mppt_power_w", "W"))
    } else if shunt && str_eq(field, "current_a") {
        Some(("venus_shunt_current_a", "A"))
    } else if shunt && str_eq(field, "power_w") {
        Some(("venus_shunt_power_w", "W"))
    } else if inverter && str_eq(field, "ac_out_power_w") {
        Some(("venus_inverter_ac_output_power_w", "W"))
    } else if inverter && str_eq(field, "dc_power_w") {
        Some(("venus_inverter_power_w", "W"))
    } else if solar && str_eq(field, "mppt_power_w") {
        Some(("mppt_power_w", "W"))
    } else if inverter_status && str_eq(field, "dc_power_w") {
        Some(("venus_inverter_power_w", "W"))
    } else if inverter_status && str_eq(field, "ac_out_power_w") {
        Some(("venus_inverter_ac_output_power_w", "W"))
    } else {
        None
    }
}

/// Text of an optional parameter, empty when absent.
pub open spec fn text_or_empty(o: Option<String>) -> Seq<char> {
    match o {
        Some(s) => s@,
        None => Seq::empty(),
    }
}

/// A present, non-empty parameter.
pub open spec fn given(o: Option<String>) -> Option<Seq<char>> {
    match o {
        Some(s) => if s@.len() > 0 {
            Some(s@)
        } else {
            None
        },
        None => None,
    }
}

/// `metric{label="value"}`.
pub open spec fn labelled(metric: Seq<char>, label: Seq<char>, value: Seq<char>) -> Seq<char> {
    metric + seq!['{'] + label + seq!['=', '"'] + value + seq!['"', '}']
}

/// PromQL expression of a per-device chart: BMS metrics select their
/// `bms_id`, the others their `address`, each in canonical `0x..` form.
pub open spec fn edge_query(metric: Seq<char>, bms_id: Option<String>, address: Option<String>) -> Seq<
    char,
> {
    if is_prefix("bms_"@, metric) {
        match given(bms_id) {
            Some(b) => labelled(metric, "bms_id"@, normalized_address(b)),
            None => metric,
        }
    } else {
        match given(address) {
            Some(a) => labelled(metric, "address"@, normalized_address(a)),
            None => metric,
        }
    }
}

/// `?metric=&bms_id=&address=&minutes=` of the per-device chart, or the
/// legacy `?measurement=&field=` naming.
#[derive(Debug, Clone, Default)]
pub struct EdgeHistoryParams {
    pub metric: Option<String>,
    pub bms_id: Option<String>,
    pub address: Option<String>,
    pub minutes: Option<u32>,
    pub measurement: Option<String>,
    pub field: Option<String>,
}

/// Metric and unit of a per-device chart request: the metric given (its unit
/// inferred from its name), else the legacy naming.
pub open spec fn edge_metric(p: EdgeHistoryParams) -> Option<(Seq<char>, Seq<char>)> {
    match p.metric {
        Some(m) => Some((m@, unit_of(m@))),
        None => legacy_metric(text_or_empty(p.measurement), text_or_empty(p.field)),
    }
}

/// What a per-device chart queries.
#[derive(Debug, Clone)]
pub struct EdgePlan {
    pub metric: String,
    pub unit: String,
    /// PromQL expression.
    pub query: String,
    pub window: TimeWindow,
}

fn labelled_exec(metric: &str, label: &str, value: &str) -> (r: String)
    ensures
        r@ == labelled(metric@, label@, value@),
{
    let mut s = String::from_str(metric);
    push_char(&mut s, '{');
    s.append(label);
    push_char(&mut s, '=');
    push_char(&mut s, '"');
    s.append(value);
    push_char(&mut s, '"');
    push_char(&mut s, '}');
    proof {
        assert(s@ =~= labelled(metric@, label@, value@));
    }
    s
}

fn given_exec(o: &Option<String>) -> (r: Option<&str>)
    ensures
        match r {
            Some(s) => given(*o) == Some(s@),
            None => given(*o) is None,
        },
{
    match o {
        Some(s) => if s.unicode_len() > 0 {
            Some(s.as_str())
        } else {
            None
        },
        None => None,
    }
}

impl EdgeHistoryParams {
    /// Metric, unit, expression and window of the chart ending at `now_ms`;
    /// `None` when neither a metric nor a known legacy naming is given.
    pub fn plan(&self, now_ms: i64) -> (r: Option<EdgePlan>)
        requires
            now_ms >= i64::MIN + 1440 * 60_000,
        ensures
            match r {
                Some(p) => {
                    &&& edge_metric(*self) == Some((p.metric@, p.unit@))
                    &&& p.query@ == edge_query(p.metric@, self.bms_id, self.address)
                    &&& p.window == window_ending(
                        now_ms as int,
                        edge_minutes(self.minutes),
                        edge_step_ms(edge_minutes(self.minutes)),
                    )
                },
                None => edge_metric(*self) is None,
            },
    {
        let (metric, unit) = match &self.metric {
            Some(m) => (m.clone(), String::from_str(infer_unit(m.as_str()))),
            None => {
                let measurement = match &self.measurement {
                    Some(s) => s.as_str(),
                    None => "",
                };
                let field = match &self.field {
                    Some(s) => s.as_str(),
                    None => "",
                };
                proof {
                    reveal_strlit("");
                    assert(measurement@ =~= text_or_empty(self.measurement));
                    assert(field@ =~= text_or_empty(self.field));
                }
                match legacy_metric_exec(measurement, field) {
                    Some((m, u)) => (String::from_str(m), String::from_str(u)),
                    None => return None,
                }
            },
        };
        let query = if starts_with(metric.as_str(), "bms_") {
            match given_exec(&self.bms_id) {
                Some(b) => labelled_exec(metric.as_str(), "bms_id", normalize_address(b).as_str()),
                None => metric.clone(),
            }
        } else {
            match given_exec(&self.address) {
                Some(a) => labelled_exec(metric.as_str(), "address", normalize_address(a).as_str()),
                None => metric.clone(),
            }
        };
        let minutes = clamp_minutes(self.minutes, 360, 1440);
        let step_ms: i64 = if minutes <= 60 {
            60_000
        } else if minutes <= 360 {
            180_000
        } else {
            600_000
        };
        let window = TimeWindow {
            minutes,
            start_ms: now_ms - minutes * 60_000,
            end_ms: now_ms,
            step_ms,
        };
        Some(EdgePlan { metric, unit, query, window })
    }
}

// ---------------------------------------------------------------------------
// Energy history
// ---------------------------------------------------------------------------

/// Span, bucket and aggregation window of an energy history period:
/// `week` and `month` by day, `year` by 30 days, anything else is a day
/// by hour.
pub open spec fn period_plan(period: Seq<char>) -> (int, int, Seq<char>) {
    if period == "week"@ {
        (604_800_000int, 86_400_000int, "1d"@)
    } else if period == "month"@ {
        (2_592_000_000int, 86_400_000int, "1d"@)
    } else if period == "year"@ {
        (31_536_000_000int, 2_592_000_000int, "30d"@)
    } else {
        (86_400_000int, 3_600_000int, "1h"@)
    }
}

/// Heads of the energy history expressions, each completed by
/// `<window>])`: solar, grid and house power averages, PV, grid import,
/// grid export and house energy increases, charged and discharged Ah.
pub open spec fn energy_heads() -> Seq<Seq<char>> {
    seq![
        "avg_over_time(solar_total_w["@,
        "avg_over_time(et112_power_w{address=\"0x09\"}["@,
        "avg_over_time(et112_power_w{address=\"0x08\"}["@,
        "increase(et112_energy_import_wh{address=\"0x07\"}["@,
        "increase(et112_energy_import_wh{address=\"0x09\"}["@,
        "increase(et112_energy_export_wh{address=\"0x09\"}["@,
        "increase(et112_energy_import_wh{address=\"0x08\"}["@,
        "max_over_time(venus_shunt_ah_charged_today["@,
        "max_over_time(venus_shunt_ah_discharged_today["@,
    ]
}

/// The energy history expressions over `window`.
pub open spec fn energy_queries(window: Seq<char>) -> Seq<Seq<char>> {
    energy_heads().map_values(|h: Seq<char>| h + window + seq![']', ')'])
}

/// `?period=` of the energy history (`day` by default).
#[derive(Debug, Clone, Default)]
pub struct EnergyHistoryParams {
    pub period: Option<String>,
}

/// What the energy history queries.
#[derive(Debug, Clone)]
pub struct EnergyPlan {
    /// Period echoed in the answer.
    pub period: String,
    pub start_ms: i64,
    pub end_ms: i64,
    /// Bucket of the range query.
    pub step_ms: i64,
    /// PromQL aggregation window.
    pub window: &'static str,
    /// The expressions, in the order of `energy_heads`.
    pub queries: Vec<String>,
}

fn windowed(head: &str, window: &str) -> (r: String)
    ensures
        r@ == head@ + window@ + seq![']', ')'],
{
    let mut s = String::from_str(head);
    s.append(window);
    push_char(&mut s, ']');
    push_char(&mut s, ')');
    proof {
        assert(s@ =~= head@ + window@ + seq![']', ')']);
    }
    s
}

fn energy_query_list(window: &str) -> (r: Vec<String>)
    ensures
        r@.len() == 9,
        forall|i: int| 0 <= i < 9 ==> #[trigger] r@[i]@ == energy_queries(window@)[i],
{
    let mut v: Vec<String> = Vec::new();
    v.push(windowed("avg_over_time(solar_total_w[", window));
    v.push(windowed("avg_over_time(et112_power_w{address=\"0x09\"}[", window));
    v.push(windowed("avg_over_time(et112_power_w{address=\"0x08\"}[", window));
    v.push(windowed("increase(et112_energy_import_wh{address=\"0x07\"}[", window));
    v.push(windowed("increase(et112_energy_import_wh{address=\"0x09\"}[", window));
    v.push(windowed("increase(et112_energy_export_wh{address=\"0x09\"}[", window));
    v.push(windowed("increase(et112_energy_import_wh{address=\"0x08\"}[", window));
    v.push(windowed("max_over_time(venus_shunt_ah_charged_today[", window));
    v.push(windowed("max_over_time(venus_shunt_ah_discharged_today[", window));
    v
}

impl EnergyHistoryParams {
    /// Period, window, bucket and expressions of the history ending at
    /// `now_ms`.
    pub fn plan(&self, now_ms: i64) -> (r: EnergyPlan)
        requires
            now_ms >= i64::MIN + 365 * 86_400_000,
        ensures
            r.period@ == (match self.period {
                Some(p) => p@,
                None => "day"@,
            }),
            r.start_ms == now_ms - period_plan(r.period@).0,
            r.end_ms == now_ms,
            r.step_ms == period_plan(r.period@).1,
            r.window@ == period_plan(r.period@).2,
            r.queries@.len() == 9,
            forall|i: int| 0 <= i < 9 ==> #[trigger] r.queries@[i]@ == energy_queries(r.window@)[i],
    {
        let period = match &self.period {
            Some(p) => p.clone(),
            None => String::from_str("day"),
        };
        let p = period.as_str();
        let (span, step_ms, window): (i64, i64, &'static str) = if str_eq(p, "week") {
            (7 * 86_400_000, 86_400_000, "1d")
        } else if str_eq(p, "month") {
            (30 * 86_400_000, 86_400_000, "1d")
        } else if str_eq(p, "year") {
            (365 * 86_400_000, 2_592_000_000, "30d")
        } else {
            (86_400_000, 3_600_000, "1h")
        };
        let queries = energy_query_list(window);
        EnergyPlan { period, start_ms: now_ms - span, end_ms: now_ms, step_ms, window, queries }
    }
}

// ---------------------------------------------------------------------------
// Panel catalogue and panel data
// ---------------------------------------------------------------------------

/// `?kind=&include_rows=` of the catalogue listing.
#[derive(Debug, Clone, Default)]
pub struct CatalogParams {
    /// Grafana panel type to keep (`stat`, `timeseries`...).
    pub kind: Option<String>,
    /// Whether rows (sections) are listed; they are not by default.
    pub include_rows: Option<bool>,
}

/// Whether a panel is listed for the request.
pub open spec fn panel_selected(p: Panel, q: CatalogParams) -> bool {
    &&& (q.include_rows == Some(true) || p.kind != PanelKind::Row)
    &&& match q.kind {
        Some(k) => p.kind == kind_of(k@),
        None => true,
    }
}

/// The panels listed for the request, in catalogue order.
pub open spec fn selected_panels(ps: Seq<Panel>, q: CatalogParams) -> Seq<Panel>
    decreases ps.len(),
{
    if ps.len() == 0 {
        ps
    } else {
        let rest = selected_panels(ps.drop_last(), q);
        if panel_selected(ps.last(), q) {
            rest.push(ps.last())
        } else {
            rest
        }
    }
}

impl CatalogParams {
    /// The catalogue panels that the request lists, in catalogue order.
    pub fn select<'a>(&self, catalog: &'a Catalog) -> (r: Vec<&'a Panel>)
        ensures
            r@.len() == selected_panels(catalog.panels@, *self).len(),
            forall|i: int|
                0 <= i < r@.len() ==> *#[trigger] r@[i] == selected_panels(catalog.panels@, *self)[i],
    {
        let include_rows = match self.include_rows {
            Some(b) => b,
            None => false,
        };
        let kind_filter = match &self.kind {
            Some(k) => Some(PanelKind::from_grafana(k.as_str())),
            None => None,
        };
        let ps = catalog.panels();
        let n = ps.len();
        let mut out: Vec<&'a Panel> = Vec::new();
        let mut i: usize = 0;
        while i < n
            invariant
                n == ps@.len(),
                ps@ == catalog.panels@,
                i <= n,
                include_rows == (self.include_rows == Some(true)),
                match self.kind {
                    Some(k) => kind_filter == Some(kind_of(k@)),
                    None => kind_filter is None,
                },
                out@.len() == selected_panels(ps@.take(i as int), *self).len(),
                forall|j: int|
                    0 <= j < out@.len() ==> *#[trigger] out@[j] == selected_panels(
                        ps@.take(i as int),
                        *self,
                    )[j],
            decreases n - i,
        {
            let p = &ps[i];
            let keep_kind = match kind_filter {
                Some(k) => p.kind == k,
                None => true,
            };
            assert(ps@.take(i + 1).drop_last() =~= ps@.take(i as int));
            if (include_rows || p.kind != PanelKind::Row) && keep_kind {
                out.push(p);
            }
            i += 1;
        }
        assert(ps@.take(n as int) =~= ps@);
        out
    }
}

/// `max(to - from, 1)` seconds (truncated), spread over about 200 points,
/// kept within 5 s..=1 day.
pub open spec fn auto_step_s(from_ms: int, to_ms: int) -> int {
    let span_ms = if to_ms - from_ms > 1 {
        to_ms - from_ms
    } else {
        1
    };
    clamped(span_ms / 1000 / 200, 5, 86_400)
}

/// `?from=&to=&step=` of a panel's data (epoch ms, step in seconds).
#[derive(Debug, Clone, Copy, PartialEq, Eq, Structural, Default)]
pub struct PanelDataParams {
    /// Start of the window; one hour before its end by default.
    pub from: Option<i64>,
    /// End of the window; now by default.
    pub to: Option<i64>,
    /// Step in seconds; about 200 points over the window by default.
    pub step: Option<i64>,
}

/// Window and step of a panel's range queries.
#[derive(Debug, Clone, Copy, PartialEq, Eq, Structural)]
pub struct PanelWindow {
    pub from_ms: i64,
    pub to_ms: i64,
    pub step_ms: i64,
}

impl PanelDataParams {
    /// End of the window (`now_ms` by default).
    pub open spec fn to_at(self, now_ms: int) -> int {
        match self.to {
            Some(t) => t as int,
            None => now_ms,
        }
    }

    /// Start of the window (an hour before its end by default).
    pub open spec fn from_at(self, now_ms: int) -> int {
        match self.from {
            Some(f) => f as int,
            None => self.to_at(now_ms) - 3_600_000,
        }
    }

    /// Step in seconds, at least 1.
    pub open spec fn step_s_at(self, now_ms: int) -> int {
        let s = match self.step {
            Some(s) => s as int,
            None => auto_step_s(self.from_at(now_ms), self.to_at(now_ms)),
        };
        if s > 1 {
            s
        } else {
            1
        }
    }

    /// Whether the window and step of the request are computed without
    /// overflowing 64-bit integers.
    pub open spec fn fits(self, now_ms: int) -> bool {
        &&& i64::MIN <= self.from_at(now_ms)
        &&& i64::MIN <= self.to_at(now_ms) - self.from_at(now_ms) <= i64::MAX
        &&& self.step_s_at(now_ms) * 1000 <= i64::MAX
    }

    /// Window and step, in milliseconds, of the request made at `now_ms`.
    pub fn window(&self, now_ms: i64) -> (w: PanelWindow)
        requires
            self.fits(now_ms as int),
        ensures
            w.to_ms == self.to_at(now_ms as int),
            w.from_ms == self.from_at(now_ms as int),
            w.step_ms == self.step_s_at(now_ms as int) * 1000,
    {
        let to_ms = match self.to {
            Some(t) => t,
            None => now_ms,
        };
        let from_ms = match self.from {
            Some(f) => f,
            None => to_ms - 3_600_000,
        };
        let diff = to_ms - from_ms;
        let span_ms = if diff > 1 {
            diff
        } else {
            1
        };
        let per_point = span_ms / 1000 / 200;
        let auto_step_s = if per_point < 5 {
            5
        } else if per_point > 86_400 {
            86_400
        } else {
            per_point
        };
        let s = match self.step {
            Some(s) => s,
            None => auto_step_s,
        };
        let step_s = if s > 1 {
            s
        } else {
            1
        };
        PanelWindow { from_ms, to_ms, step_ms: step_s * 1000 }
    }
}

/// `{{label}}`, a label reference in a Grafana legend format.
pub open spec fn placeholder(key: Seq<char>) -> Seq<char> {
    seq!['{', '{'] + key + seq!['}', '}']
}

/// The legend format with each label reference replaced, label by label in
/// the order given.
pub open spec fn substituted(fmt: Seq<char>, labels: Seq<(String, String)>) -> Seq<char>
    decreases labels.len(),
{
    if labels.len() == 0 {
        fmt
    } else {
        substituted(
            replaced(fmt, placeholder(labels[0].0@), labels[0].1@),
            labels.skip(1),
        )
    }
}

/// Value of the first label with the given name, empty when there is none.
pub open spec fn label_value(labels: Seq<(String, String)>, key: Seq<char>) -> Seq<char>
    decreases labels.len(),
{
    if labels.len() == 0 {
        Seq::empty()
    } else if labels[0].0@ == key {
        labels[0].1@
    } else {
        label_value(labels.skip(1), key)
    }
}

/// Legend of a series: the panel's legend format with its label references
/// filled in, or else the metric name (`__name__`).
pub open spec fn legend_of(format: Option<Seq<char>>, labels: Seq<(String, String)>) -> Seq<char> {
    match format {
        Some(f) => substituted(f, labels),
        None => label_value(labels, "__name__"@),
    }
}

fn placeholder_exec(key: &str) -> (r: String)
    ensures
        r@ == placeholder(key@),
{
    let mut s = String::new();
    push_char(&mut s, '{');
    push_char(&mut s, '{');
    s.append(key);
    push_char(&mut s, '}');
    push_char(&mut s, '}');
    proof {
        assert(s@ =~= placeholder(key@));
    }
    s
}

/// Legend of a series from the panel's legend format and the series'
/// string-valued labels, in the order the series lists them.
pub fn format_legend(format: Option<&str>, labels: &Vec<(String, String)>) -> (r: String)
    ensures
        r@ == legend_of(
            match format {
                Some(f) => Some(f@),
                None => None,
            },
            labels@,
        ),
{
    let n = labels.len();
    match format {
        Some(fmt) => {
            let mut result = String::from_str(fmt);
            let mut i: usize = 0;
            proof {
                assert(labels@.skip(0) =~= labels@);
            }
            while i < n
                invariant
                    n == labels@.len(),
                    format == Some(fmt),
                    i <= n,
                    substituted(result@, labels@.skip(i as int)) == substituted(fmt@, labels@),
                decreases n - i,
            {
                let ph = placeholder_exec(labels[i].0.as_str());
                let next = replace_all(result.as_str(), ph.as_str(), labels[i].1.as_str());
                proof {
                    assert(labels@.skip(i as int).skip(1) =~= labels@.skip(i + 1));
                }
                result = next;
                i += 1;
            }
            proof {
                assert(labels@.skip(n as int) =~= Seq::<(String, String)>::empty());
            }
            result
        },
        None => {
            let mut i: usize = 0;
            proof {
                assert(labels@.skip(0) =~= labels@);
            }
            while i < n
                invariant
                    n == labels@.len(),
                    format is None,
                    i <= n,
                    label_value(labels@.skip(i as int), "__name__"@) == label_value(
                        labels@,
                        "__name__"@,
                    ),
                decreases n - i,
            {
                proof {
                    assert(labels@.skip(i as int).skip(1) =~= labels@.skip(i + 1));
                }
                if str_eq(labels[i].0.as_str(), "__name__") {
                    assert(labels@.skip(i as int)[0] == labels@[i as int]);
                    return labels[i].1.clone();
                }
                i += 1;
            }
            proof {
                assert(labels@.skip(n as int) =~= Seq::<(String, String)>::empty());
            }
            String::new()
        },
    }
}

// ---------------------------------------------------------------------------
// Logs
// ---------------------------------------------------------------------------

/// `?limit=` of the in-memory log listing.
#[derive(Debug, Clone, Copy, PartialEq, Eq, Structural, Default)]
pub struct LogsQuery {
    pub limit: Option<usize>,
}

impl LogsQuery {
    /// Entries listed: 100 by default, at most 200.
    pub fn effective_limit(&self) -> (r: usize)
        ensures
            r == capped_or(self.limit, 100, 200),
    {
        capped_or_exec(self.limit, 100, 200)
    }
}

/// `?name=&lines=` of a log file request.
#[derive(Debug, Clone, Default)]
pub struct LogFileQuery {
    /// File name inside the log directory.
    pub name: Option<String>,
    /// Lines returned from the end of the file.
    pub lines: Option<usize>,
}

/// Why a log file name is refused: it is missing, or it could leave the log
/// directory (a `/` or a `..` in it).
pub open spec fn log_name_error(name: Option<String>) -> Option<Seq<char>> {
    match name {
        None => Some("missing name"@),
        Some(n) => if n@.contains('/') || exists|i: int| occurs_at(n@, ".."@, i) {
            Some("invalid filename"@)
        } else {
            None
        },
    }
}

/// The last `limit` lines (all of them when there are fewer).
pub open spec fn last_lines(ls: Seq<Seq<char>>, limit: usize) -> Seq<Seq<char>> {
    let k = if limit < ls.len() {
        limit as int
    } else {
        ls.len() as int
    };
    ls.skip(ls.len() - k)
}

impl LogFileQuery {
    /// The requested file name, or why it is refused.
    pub fn file_name(&self) -> (r: Result<&str, &'static str>)
        ensures
            match r {
                Ok(n) => log_name_error(self.name) is None && n@ == text_or_empty(self.name),
                Err(e) => log_name_error(self.name) == Some(e@),
            },
    {
        match &self.name {
            None => Err("missing name"),
            Some(n) => {
                if contains_char(n.as_str(), '/') || contains_str(n.as_str(), "..") {
                    Err("invalid filename")
                } else {
                    Ok(n.as_str())
                }
            },
        }
    }

    /// Lines returned: 500 by default, at most 5000.
    pub fn line_limit(&self) -> (r: usize)
        ensures
            r == capped_or(self.lines, 500, 5000),
    {
        capped_or_exec(self.lines, 500, 5000)
    }
}

/// The last `limit` lines of a log file's content, in file order.
pub fn tail_lines(content: &str, limit: usize) -> (r: Vec<String>)
    ensures
        views_of(r@) == last_lines(text_lines(content@), limit),
{
    let mut all = lines_of(content);
    let n = all.len();
    let k = if limit < n {
        limit
    } else {
        n
    };
    let ghost lines0 = all@;
    let tail = all.split_off(n - k);
    proof {
        assert(views_of(lines0).len() == n);
        assert(views_of(tail@) =~= views_of(lines0).skip(n - k));
    }
    tail
}

/// An alert page never asks for more than 500 events, and a log listing
/// for more than 200 entries or 5000 lines.
pub proof fn lemma_limits_capped(o: Option<usize>)
    ensures
        capped_or(o, 100, 500) <= 500,
        capped_or(o, 100, 200) <= 200,
        capped_or(o, 500, 5000) <= 5000,
{
}

/// The automatic step of a panel query stays within 5 s..=1 day, whatever
/// the window.
pub proof fn lemma_auto_step_bounds(from_ms: int, to_ms: int)
    ensures
        5 <= auto_step_s(from_ms, to_ms) <= 86_400,
{
}

/// The lines kept from a log file are its last ones, at most `limit` of
/// them, in file order.
pub proof fn lemma_last_lines_suffix(ls: Seq<Seq<char>>, limit: usize)
    ensures
        last_lines(ls, limit).len() <= limit,
        last_lines(ls, limit).len() == ls.len() || last_lines(ls, limit).len() == limit,
        forall|i: int|
            0 <= i < last_lines(ls, limit).len() ==> #[trigger] last_lines(ls, limit)[i] == ls[ls.len()
                - last_lines(ls, limit).len() + i],
{
}

} // verus!
