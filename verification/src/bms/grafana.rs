//! Reading of a Grafana dashboard (JSON text) into catalogue panels: only
//! what the interface shows is kept (id, title, type, grid position, PromQL
//! targets, unit and decimals), and the panels nested in collapsed rows are
//! flattened after their row, in document order.
use vstd::prelude::*;
use vstd::string::StringSliceAdditionalSpecFns;
use crate::bms::dashboards::{kind_of, GridPos, Panel, PanelKind, PanelQuery};
use crate::json::{
    array_of, get, get_opt, as_str, as_u64, get_in, json_accepts, json_from_value, json_get,
    json_value_of, json_view, lemma_member_index, member_index, parse_json, str_of, u64_of, Json,
};
use crate::text::{dec_digits, push_u64};

verus! {

/// A query as read from a dashboard.
pub struct QueryView {
    pub ref_id: Seq<char>,
    pub expr: Seq<char>,
    pub legend: Option<Seq<char>>,
}

/// A panel as read from a dashboard.
pub struct PanelView {
    pub id: Seq<char>,
    pub title: Seq<char>,
    pub kind: PanelKind,
    pub grid_pos: GridPos,
    pub unit: Seq<char>,
    pub queries: Seq<QueryView>,
    pub decimals: Option<u8>,
}

pub open spec fn query_view(q: PanelQuery) -> QueryView {
    QueryView {
        ref_id: q.ref_id@,
        expr: q.expr@,
        legend: match q.legend {
            Some(l) => Some(l@),
            None => None,
        },
    }
}

pub open spec fn queries_view(qs: Seq<PanelQuery>) -> Seq<QueryView> {
    qs.map_values(|q: PanelQuery| query_view(q))
}

pub open spec fn panel_view(p: Panel) -> PanelView {
    PanelView {
        id: p.id@,
        title: p.title@,
        kind: p.kind,
        grid_pos: p.grid_pos,
        unit: p.unit@,
        queries: queries_view(p.queries@),
        decimals: p.decimals,
    }
}

pub open spec fn panels_view(ps: Seq<Panel>) -> Seq<PanelView> {
    ps.map_values(|p: Panel| panel_view(p))
}

/// The text, or the empty text when absent.
pub open spec fn or_empty(s: Option<Seq<char>>) -> Seq<char> {
    match s {
        Some(t) => t,
        None => Seq::empty(),
    }
}

/// A target: kept when its `expr` is a non-empty string; `refId` defaults to
/// `A`; an empty `legendFormat` counts as none.
pub open spec fn query_rule(t: Json) -> Option<QueryView> {
    match str_of(json_get(t, "expr"@)) {
        Some(e) => if e.len() == 0 {
            None
        } else {
            Some(
                QueryView {
                    ref_id: match str_of(json_get(t, "refId"@)) {
                        Some(r) => r,
                        None => "A"@,
                    },
                    expr: e,
                    legend: match str_of(json_get(t, "legendFormat"@)) {
                        Some(l) => if l.len() > 0 {
                            Some(l)
                        } else {
                            None
                        },
                        None => None,
                    },
                },
            )
        },
        None => None,
    }
}

/// The kept targets, in order.
pub open spec fn queries_rule(ts: Seq<Json>) -> Seq<QueryView>
    decreases ts.len(),
{
    if ts.len() == 0 {
        Seq::empty()
    } else {
        let rest = queries_rule(ts.drop_last());
        match query_rule(ts.last()) {
            Some(q) => rest.push(q),
            None => rest,
        }
    }
}

/// A number member of the grid position (its default when absent or not a
/// `u64`), cut to 32 bits.
pub open spec fn grid_field(g: Json, k: Seq<char>, default: u64) -> u32 {
    (match u64_of(json_get(g, k)) {
        Some(n) => n,
        None => default,
    }) as u32
}

/// Grid position: `x`, `y` default to 0, `w` to 12, `h` to 8.
pub open spec fn gridpos_rule(g: Json) -> GridPos {
    GridPos {
        x: grid_field(g, "x"@, 0),
        y: grid_field(g, "y"@, 0),
        w: grid_field(g, "w"@, 12),
        h: grid_field(g, "h"@, 8),
    }
}

/// `fieldConfig.defaults.<k>` of a panel.
pub open spec fn field_default(p: Json, k: Seq<char>) -> Option<Json> {
    get_in(get_in(json_get(p, "fieldConfig"@), "defaults"@), k)
}

/// A panel object: kept only with a `u64` `id` (written in decimal); title,
/// type and unit default to empty, the grid position to all zeros when
/// absent, decimals are capped at 10.
pub open spec fn panel_rule(p: Json) -> Option<PanelView> {
    match u64_of(json_get(p, "id"@)) {
        Some(n) => Some(
            PanelView {
                id: dec_digits(n as nat),
                title: or_empty(str_of(json_get(p, "title"@))),
                kind: kind_of(or_empty(str_of(json_get(p, "type"@)))),
                grid_pos: match json_get(p, "gridPos"@) {
                    Some(g) => gridpos_rule(g),
                    None => GridPos { x: 0, y: 0, w: 0, h: 0 },
                },
                unit: or_empty(str_of(field_default(p, "unit"@))),
                queries: match array_of(json_get(p, "targets"@)) {
                    Some(ts) => queries_rule(ts),
                    None => Seq::empty(),
                },
                decimals: match u64_of(field_default(p, "decimals"@)) {
                    Some(d) => Some(
                        (if d < 10 {
                            d
                        } else {
                            10
                        }) as u8,
                    ),
                    None => None,
                },
            },
        ),
        None => None,
    }
}

/// The panels of one panel object: itself (when kept) followed by the panels
/// of its nested `panels` array, depth first.
pub open spec fn panels_in(p: Json) -> Seq<PanelView>
    decreases p,
{
    let own = match panel_rule(p) {
        Some(v) => seq![v],
        None => Seq::empty(),
    };
    own + match p {
        Json::Object(fs) => match member_index(fs@, "panels"@) {
            Some(i) => {
                proof {
                    lemma_member_index(fs@, "panels"@);
                }
                match fs@[i].1 {
                    Json::Array(cs) => panels_in_list(cs@),
                    _ => Seq::empty(),
                }
            },
            None => Seq::empty(),
        },
        _ => Seq::empty(),
    }
}

/// The panels of a list of panel objects, in order.
pub open spec fn panels_in_list(cs: Seq<Json>) -> Seq<PanelView>
    decreases cs,
{
    if cs.len() == 0 {
        Seq::empty()
    } else {
        panels_in_list(cs.subrange(0, cs.len() - 1)) + panels_in(cs[cs.len() - 1])
    }
}

/// A target of a panel, when its `expr` is a non-empty string.
fn parse_target(t: &Json) -> (r: Option<PanelQuery>)
    ensures
        match r {
            Some(q) => query_rule(*t) == Some(query_view(q)),
            None => query_rule(*t) is None,
        },
{
    let expr = match as_str(get(t, "expr")) {
        Some(e) => e,
        None => return None,
    };
    if expr.is_empty() {
        return None;
    }
    let ref_id = match as_str(get(t, "refId")) {
        Some(r) => String::from_str(r),
        None => String::from_str("A"),
    };
    let legend = match as_str(get(t, "legendFormat")) {
        Some(l) => if !l.is_empty() {
            Some(String::from_str(l))
        } else {
            None
        },
        None => None,
    };
    proof {
        reveal_strlit("A");
    }
    Some(PanelQuery { ref_id, expr: String::from_str(expr), legend })
}

fn grid_value(g: &Json, k: &str, default: u64) -> (r: u32)
    ensures
        r == grid_field(*g, k@, default),
{
    let n = match as_u64(get(g, k)) {
        Some(n) => n,
        None => default,
    };
    n as u32
}

/// Grid position of a panel (defaults `x = y = 0`, `w = 12`, `h = 8`).
fn parse_gridpos(g: &Json) -> (r: GridPos)
    ensures
        r == gridpos_rule(*g),
{
    GridPos {
        x: grid_value(g, "x", 0),
        y: grid_value(g, "y", 0),
        w: grid_value(g, "w", 12),
        h: grid_value(g, "h", 8),
    }
}

fn string_or_empty(s: Option<&str>) -> (r: String)
    ensures
        r@ == or_empty(match s {
            Some(t) => Some(t@),
            None => None,
        }),
{
    match s {
        Some(t) => String::from_str(t),
        None => String::new(),
    }
}

/// The kept targets of a `targets` array.
fn parse_targets(ts: &Vec<Json>) -> (r: Vec<PanelQuery>)
    ensures
        queries_view(r@) == queries_rule(ts@),
{
    let mut out: Vec<PanelQuery> = Vec::new();
    let mut i: usize = 0;
    while i < ts.len()
        invariant
            i <= ts@.len(),
            queries_view(out@) == queries_rule(ts@.subrange(0, i as int)),
        decreases ts@.len() - i,
    {
        let ghost before = out@;
        let q = parse_target(&ts[i]);
        proof {
            assert(ts@.subrange(0, i + 1).drop_last() =~= ts@.subrange(0, i as int));
            assert(ts@.subrange(0, i + 1).last() == ts@[i as int]);
        }
        match q {
            Some(q) => {
                out.push(q);
                proof {
                    assert(queries_view(out@) =~= queries_view(before).push(query_view(out@.last())));
                }
            },
            None => {},
        }
        i += 1;
    }
    proof {
        assert(ts@.subrange(0, ts@.len() as int) =~= ts@);
    }
    out
}

/// A panel object, when it has a `u64` `id`.
fn parse_one(p: &Json) -> (r: Option<Panel>)
    ensures
        match r {
            Some(x) => panel_rule(*p) == Some(panel_view(x)),
            None => panel_rule(*p) is None,
        },
{
    let n = match as_u64(get(p, "id")) {
        Some(n) => n,
        None => return None,
    };
    let mut id = String::new();
    push_u64(&mut id, n);
    proof {
        assert(id@ =~= dec_digits(n as nat));
    }
    let title = string_or_empty(as_str(get(p, "title")));
    let raw_type = string_or_empty(as_str(get(p, "type")));
    let kind = PanelKind::from_grafana(raw_type.as_str());
    let grid_pos = match get(p, "gridPos") {
        Some(g) => parse_gridpos(g),
        None => GridPos { x: 0, y: 0, w: 0, h: 0 },
    };
    let defaults = get_opt(get(p, "fieldConfig"), "defaults");
    let unit = string_or_empty(as_str(get_opt(defaults, "unit")));
    let decimals = match as_u64(get_opt(defaults, "decimals")) {
        Some(d) => Some(
            (if d < 10 {
                d
            } else {
                10
            }) as u8,
        ),
        None => None,
    };
    let queries = match get(p, "targets") {
        Some(Json::Array(ts)) => parse_targets(ts),
        _ => Vec::new(),
    };
    proof {
        assert(queries_view(Seq::<PanelQuery>::empty()) =~= Seq::<QueryView>::empty());
    }
    Some(Panel { id, title, kind, grid_pos, unit, queries, decimals })
}

/// Appends the panels of one panel object (itself, then its nested
/// panels, depth first).
fn collect_panel(p: &Json, out: &mut Vec<Panel>)
    ensures
        panels_view(final(out)@) == panels_view(old(out)@) + panels_in(*p),
    decreases p,
{
    let ghost base = panels_view(out@);
    let own = parse_one(p);
    match own {
        Some(x) => {
            out.push(x);
            proof {
                assert(panels_view(out@) =~= base + seq![panel_view(x)]);
            }
        },
        None => {},
    }
    let ghost mid = panels_view(out@);
    match p {
        Json::Object(fs) => match crate::json::find_member(fs, "panels") {
            Some(i) => {
                match &fs[i].1 {
                    Json::Array(cs) => {
                        let mut j: usize = 0;
                        while j < cs.len()
                            invariant
                                j <= cs@.len(),
                                panels_view(out@) == mid + panels_in_list(cs@.subrange(0, j as int)),
                                *p == Json::Object(*fs),
                                i < fs@.len(),
                                fs@[i as int].1 == Json::Array(*cs),
                            decreases cs@.len() - j,
                        {
                            proof {
                                assert(cs@.subrange(0, j + 1).subrange(0, j as int) =~= cs@.subrange(0, j as int));
                                assert(decreases_to!(*p => (*p)->Object_0));
                                assert(decreases_to!(*fs => fs@));
                                assert(decreases_to!(fs@ => fs@[i as int]));
                                assert(decreases_to!(fs@[i as int] => fs@[i as int].1));
                                assert(decreases_to!(fs@[i as int].1 => fs@[i as int].1->Array_0));
                                assert(decreases_to!(*cs => cs@));
                                assert(decreases_to!(cs@ => cs@[j as int]));
                                assert(decreases_to!(*p => cs@[j as int]));
                            }
                            collect_panel(&cs[j], out);
                            j += 1;
                        }
                        proof {
                            assert(cs@.subrange(0, cs@.len() as int) =~= cs@);
                        }
                    },
                    _ => {},
                }
            },
            None => {},
        },
        _ => {},
    }
}

/// Why a dashboard could not be read.
#[derive(Debug)]
pub enum DashboardError {
    /// The text is not a JSON document.
    Json(serde_json::Error),
    /// The document has no `panels` array.
    NoPanels,
}

/// Panels of a Grafana dashboard, nested panels (inside rows) included.
pub fn parse_dashboard(json: &str) -> (r: Result<Vec<Panel>, DashboardError>)
    ensures
        !json_accepts(json.spec_bytes()) ==> r matches Err(DashboardError::Json(_)),
        json_accepts(json.spec_bytes()) ==> match array_of(
            json_get(json_view(json_value_of(json.spec_bytes())), "panels"@),
        ) {
            Some(ps) => r matches Ok(v) && panels_view(v@) == panels_in_list(ps),
            None => r matches Err(DashboardError::NoPanels),
        },
{
    let root = match parse_json(json.as_bytes()) {
        Ok(v) => json_from_value(&v),
        Err(e) => return Err(DashboardError::Json(e)),
    };
    match get(&root, "panels") {
        Some(Json::Array(ps)) => {
            let mut out: Vec<Panel> = Vec::new();
            let mut j: usize = 0;
            while j < ps.len()
                invariant
                    j <= ps@.len(),
                    panels_view(out@) == panels_in_list(ps@.subrange(0, j as int)),
                decreases ps@.len() - j,
            {
                proof {
                    assert(ps@.subrange(0, j + 1).subrange(0, j as int) =~= ps@.subrange(0, j as int));
                }
                collect_panel(&ps[j], &mut out);
                j += 1;
            }
            proof {
                assert(ps@.subrange(0, ps@.len() as int) =~= ps@);
            }
            Ok(out)
        },
        _ => Err(DashboardError::NoPanels),
    }
}

} // verus!
