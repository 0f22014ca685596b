//! Catalogue of dashboard panels imported from Grafana dashboards.
//!
//! Each source dashboard has its own grid (24 columns, `y` from 0). The
//! catalogue namespaces the ids of prefixed sources (`bms.1`, `infra.2`),
//! stacks the sources vertically (each one starts one row below the bottom of
//! the previous one) and keeps the first panel of each id.
use vstd::prelude::*;
use crate::text::{push_char, str_eq};

verus! {

/// Normalised panel type (the subset of Grafana used by the UI).
#[derive(Debug, Clone, Copy, PartialEq, Eq, Structural)]
pub enum PanelKind {
    Row,
    Stat,
    TimeSeries,
    BarChart,
    Gauge,
    BarGauge,
    Table,
    Unknown,
}

pub open spec fn kind_of(s: Seq<char>) -> PanelKind {
    if s == "row"@ {
        PanelKind::Row
    } else if s == "stat"@ {
        PanelKind::Stat
    } else if s == "timeseries"@ {
        PanelKind::TimeSeries
    } else if s == "barchart"@ {
        PanelKind::BarChart
    } else if s == "gauge"@ {
        PanelKind::Gauge
    } else if s == "bargauge"@ {
        PanelKind::BarGauge
    } else if s == "table"@ {
        PanelKind::Table
    } else {
        PanelKind::Unknown
    }
}

impl PanelKind {
    /// Kind of a Grafana panel `type`; unknown types read as `Unknown`.
    pub fn from_grafana(s: &str) -> (k: Self)
        ensures
            k == kind_of(s@),
    {
        if str_eq(s, "row") {
            PanelKind::Row
        } else if str_eq(s, "stat") {
            PanelKind::Stat
        } else if str_eq(s, "timeseries") {
            PanelKind::TimeSeries
        } else if str_eq(s, "barchart") {
            PanelKind::BarChart
        } else if str_eq(s, "gauge") {
            PanelKind::Gauge
        } else if str_eq(s, "bargauge") {
            PanelKind::BarGauge
        } else if str_eq(s, "table") {
            PanelKind::Table
        } else {
            PanelKind::Unknown
        }
    }
}

/// Position and initial size of a panel (Grafana 24-column grid).
#[derive(Debug, Clone, Copy, PartialEq, Eq, Structural)]
pub struct GridPos {
    pub x: u32,
    pub y: u32,
    pub w: u32,
    pub h: u32,
}

impl Default for GridPos {
    fn default() -> (g: Self)
        ensures
            g == (GridPos { x: 0, y: 0, w: 0, h: 0 }),
    {
        GridPos { x: 0, y: 0, w: 0, h: 0 }
    }
}

/// A PromQL query of a panel.
#[derive(Debug, Clone)]
pub struct PanelQuery {
    /// Grafana `refId` (A, B, C...).
    pub ref_id: String,
    /// PromQL expression.
    pub expr: String,
    /// Legend format (may hold Grafana `{label}` references).
    pub legend: Option<String>,
}

/// A normalised panel, ready for the UI.
#[derive(Debug, Clone)]
pub struct Panel {
    /// Stable identifier (Grafana id, possibly prefixed by its source).
    pub id: String,
    pub title: String,
    pub kind: PanelKind,
    pub grid_pos: GridPos,
    /// Grafana unit (`watt`, `percent`...), possibly empty.
    pub unit: String,
    /// PromQL queries (none for rows).
    pub queries: Vec<PanelQuery>,
    /// Display decimals.
    pub decimals: Option<u8>,
}

/// `u32::saturating_add`.
pub open spec fn sat_add(a: u32, b: u32) -> u32 {
    if a + b > u32::MAX {
        u32::MAX
    } else {
        (a + b) as u32
    }
}

/// Id of a panel of a source with `prefix`: `prefix.id`, or unchanged for an
/// empty prefix.
pub open spec fn prefixed_id(prefix: Seq<char>, id: Seq<char>) -> Seq<char> {
    if prefix.len() > 0 {
        prefix + seq!['.'] + id
    } else {
        id
    }
}

/// The panel as placed in the catalogue: id namespaced, shifted down by `y_offset`.
pub open spec fn placed(p: Panel, prefix: Seq<char>, y_offset: u32) -> (Seq<char>, GridPos) {
    (prefixed_id(prefix, p.id@), GridPos { y: sat_add(p.grid_pos.y, y_offset), ..p.grid_pos })
}

/// Lowest bottom edge (`y + h`, saturated) of the placed panels, 0 if none.
pub open spec fn placed_bottom(ps: Seq<Panel>, y_offset: u32) -> u32
    decreases ps.len(),
{
    if ps.len() == 0 {
        0
    } else {
        let rest = placed_bottom(ps.drop_last(), y_offset);
        let g = placed(ps.last(), seq![], y_offset).1;
        let bottom = sat_add(g.y, g.h);
        if bottom > rest {
            bottom
        } else {
            rest
        }
    }
}

/// Vertical offset at which the source following `srcs` starts.
pub open spec fn offset_after(srcs: Seq<(String, Vec<Panel>)>) -> u32
    decreases srcs.len(),
{
    if srcs.len() == 0 {
        0
    } else {
        let off = offset_after(srcs.drop_last());
        sat_add(placed_bottom(srcs.last().1@, off), 1)
    }
}

/// Every panel of every source, placed, in source order: pairs of
/// (namespaced id, position) with the panel they come from.
pub open spec fn laid_out(srcs: Seq<(String, Vec<Panel>)>) -> Seq<(Seq<char>, GridPos, Panel)>
    decreases srcs.len(),
{
    if srcs.len() == 0 {
        seq![]
    } else {
        let off = offset_after(srcs.drop_last());
        let prefix = srcs.last().0@;
        laid_out(srcs.drop_last()) + srcs.last().1@.map_values(
            |p: Panel| (placed(p, prefix, off).0, placed(p, prefix, off).1, p),
        )
    }
}

/// Keeps the first entry of each id, in order.
pub open spec fn first_of_each_id(es: Seq<(Seq<char>, GridPos, Panel)>) -> Seq<
    (Seq<char>, GridPos, Panel),
>
    decreases es.len(),
{
    if es.len() == 0 {
        seq![]
    } else {
        let kept = first_of_each_id(es.drop_last());
        if exists|k: int| 0 <= k < kept.len() && #[trigger] kept[k].0 == es.last().0 {
            kept
        } else {
            kept.push(es.last())
        }
    }
}

/// A catalogue panel is the entry it stands for: same id and position, every
/// other field taken from the source panel.
pub open spec fn panel_is(p: Panel, e: (Seq<char>, GridPos, Panel)) -> bool {
    &&& p.id@ == e.0
    &&& p.grid_pos == e.1
    &&& p.title == e.2.title
    &&& p.kind == e.2.kind
    &&& p.unit == e.2.unit
    &&& p.queries == e.2.queries
    &&& p.decimals == e.2.decimals
}

/// Panel catalogue, loaded once at start-up.
#[derive(Debug, Clone)]
pub struct Catalog {
    pub panels: Vec<Panel>,
}

fn prefix_id(prefix: &str, id: &str) -> (r: String)
    ensures
        r@ == prefixed_id(prefix@, id@),
{
    if prefix.unicode_len() > 0 {
        let mut s = String::from_str(prefix);
        push_char(&mut s, '.');
        s.append(id);
        s
    } else {
        String::from_str(id)
    }
}

fn contains_id(ps: &Vec<Panel>, id: &str) -> (b: bool)
    ensures
        b == exists|k: int| 0 <= k < ps@.len() && #[trigger] ps@[k].id@ == id@,
{
    let n = ps.len();
    let mut i: usize = 0;
    while i < n
        invariant
            n == ps@.len(),
            i <= n,
            forall|k: int| 0 <= k < i ==> #[trigger] ps@[k].id@ != id@,
        decreases n - i,
    {
        if str_eq(ps[i].id.as_str(), id) {
            return true;
        }
        i += 1;
    }
    false
}

impl Catalog {
    pub open spec fn matches(&self, es: Seq<(Seq<char>, GridPos, Panel)>) -> bool {
        &&& self.panels@.len() == es.len()
        &&& forall|i: int| 0 <= i < es.len() ==> panel_is(#[trigger] self.panels@[i], es[i])
    }

    /// Builds the catalogue from the parsed dashboards, in order, each given
    /// with its id prefix (empty for the legacy dashboards, whose ids are
    /// kept as is).
    pub fn load_default(sources: Vec<(String, Vec<Panel>)>) -> (c: Self)
        ensures
            c.matches(first_of_each_id(laid_out(sources@))),
    {
        let ghost srcs = sources@;
        let mut sources = sources;
        let mut all: Vec<Panel> = Vec::new();
        let mut y_offset: u32 = 0;
        let ghost mut done: int = 0;
        while sources.len() > 0
            invariant
                0 <= done <= srcs.len(),
                sources@ == srcs.skip(done),
                y_offset == offset_after(srcs.take(done)),
                all@.len() == laid_out(srcs.take(done)).len(),
                forall|i: int|
                    0 <= i < all@.len() ==> panel_is(
                        #[trigger] all@[i],
                        laid_out(srcs.take(done))[i],
                    ),
            decreases sources@.len(),
        {
            let (prefix, panels) = sources.remove(0);
            assert(srcs[done] == (prefix, panels));
            let ghost ps = panels@;
            let ghost base = all@.len();
            let mut panels = panels;
            let mut max_y: u32 = 0;
            let ghost mut j: int = 0;
            while panels.len() > 0
                invariant
                    0 <= j <= ps.len(),
                    panels@ == ps.skip(j),
                    max_y == placed_bottom(ps.take(j), y_offset),
                    all@.len() == base + j,
                    forall|i: int|
                        0 <= i < base ==> panel_is(#[trigger] all@[i], laid_out(srcs.take(done))[i]),
                    forall|i: int|
                        base <= i < base + j ==> panel_is(
                            #[trigger] all@[i],
                            (
                                placed(ps[i - base], prefix@, y_offset).0,
                                placed(ps[i - base], prefix@, y_offset).1,
                                ps[i - base],
                            ),
                        ),
                decreases panels@.len(),
            {
                let p = panels.remove(0);
                assert(p == ps[j]);
                let id = prefix_id(prefix.as_str(), p.id.as_str());
                let y = p.grid_pos.y.saturating_add(y_offset);
                let gp = GridPos { x: p.grid_pos.x, y, w: p.grid_pos.w, h: p.grid_pos.h };
                let bottom = y.saturating_add(p.grid_pos.h);
                if bottom > max_y {
                    max_y = bottom;
                }
                assert(ps.take(j + 1).drop_last() =~= ps.take(j));
                let q = Panel {
                    id,
                    title: p.title,
                    kind: p.kind,
                    grid_pos: gp,
                    unit: p.unit,
                    queries: p.queries,
                    decimals: p.decimals,
                };
                all.push(q);
                proof { j = j + 1; }
                assert(panels@ =~= ps.skip(j));
            }
            assert(ps.take(j) =~= ps);
            proof {
                let pre = srcs.take(done);
                let post = srcs.take(done + 1);
                assert(post.drop_last() =~= pre);
                assert(post.last() == srcs[done]);
                assert(post.last().1@ == ps);
                assert(post.last().0@ == prefix@);
                let m = ps.map_values(
                    |p: Panel| (placed(p, prefix@, y_offset).0, placed(p, prefix@, y_offset).1, p),
                );
                assert(laid_out(post) == laid_out(pre) + m);
                assert(offset_after(post) == sat_add(placed_bottom(ps, y_offset), 1));
                assert forall|i: int| 0 <= i < all@.len() implies panel_is(
                    #[trigger] all@[i],
                    laid_out(post)[i],
                ) by {
                    if i >= base {
                        assert(m[i - base] == (placed(ps[i - base], prefix@, y_offset).0, placed(ps[i - base], prefix@, y_offset).1, ps[i - base]));
                    }
                }
            }
            y_offset = max_y.saturating_add(1);
            proof { done = done + 1; }
            assert(sources@ =~= srcs.skip(done));
        }
        assert(srcs.take(done) =~= srcs);
        let ghost es = laid_out(srcs);
        let mut kept: Vec<Panel> = Vec::new();
        let ghost mut i: int = 0;
        let ghost all0 = all@;
        while all.len() > 0
            invariant
                0 <= i <= es.len(),
                all0.len() == es.len(),
                forall|k: int| 0 <= k < es.len() ==> panel_is(#[trigger] all0[k], es[k]),
                all@ == all0.skip(i),
                kept@.len() == first_of_each_id(es.take(i)).len(),
                forall|k: int|
                    0 <= k < kept@.len() ==> panel_is(
                        #[trigger] kept@[k],
                        first_of_each_id(es.take(i))[k],
                    ),
            decreases all@.len(),
        {
            let p = all.remove(0);
            assert(p == all0[i]);
            assert(es.take(i + 1).drop_last() =~= es.take(i));
            let ghost fk = first_of_each_id(es.take(i));
            let dup = contains_id(&kept, p.id.as_str());
            proof {
                if dup {
                    let k = choose|k: int| 0 <= k < kept@.len() && #[trigger] kept@[k].id@ == p.id@;
                    assert(fk[k].0 == es[i].0);
                } else {
                    assert forall|k: int| 0 <= k < fk.len() implies #[trigger] fk[k].0 != es[i].0 by {
                        assert(kept@[k].id@ != p.id@);
                    }
                }
            }
            if !dup {
                kept.push(p);
            }
            proof { i = i + 1; }
            assert(all@ =~= all0.skip(i));
        }
        assert(es.take(i) =~= es);
        Catalog { panels: kept }
    }

    pub fn panels(&self) -> (r: &[Panel])
        ensures
            r@ == self.panels@,
    {
        self.panels.as_slice()
    }

    /// First panel with the given id.
    pub fn find(&self, id: &str) -> (r: Option<&Panel>)
        ensures
            r matches Some(p) ==> exists|k: int|
                0 <= k < self.panels@.len() && self.panels@[k] == *p && p.id@ == id@,
            r is None ==> forall|k: int|
                0 <= k < self.panels@.len() ==> #[trigger] self.panels@[k].id@ != id@,
    {
        let n = self.panels.len();
        let mut i: usize = 0;
        while i < n
            invariant
                n == self.panels@.len(),
                i <= n,
                forall|k: int| 0 <= k < i ==> #[trigger] self.panels@[k].id@ != id@,
            decreases n - i,
        {
            if str_eq(self.panels[i].id.as_str(), id) {
                return Some(&self.panels[i]);
            }
            i += 1;
        }
        None
    }
}


/// No id appears twice.
pub open spec fn ids_unique(es: Seq<(Seq<char>, GridPos, Panel)>) -> bool {
    forall|i: int, j: int| 0 <= i < j < es.len() ==> #[trigger] es[i].0 != #[trigger] es[j].0
}

/// The catalogue never holds two panels with the same id.
pub proof fn lemma_catalog_ids_unique(es: Seq<(Seq<char>, GridPos, Panel)>)
    ensures
        ids_unique(first_of_each_id(es)),
    decreases es.len(),
{
    if es.len() > 0 {
        lemma_catalog_ids_unique(es.drop_last());
    }
}

/// Every id of the sources is in the catalogue.
pub proof fn lemma_catalog_keeps_every_id(es: Seq<(Seq<char>, GridPos, Panel)>, k: int)
    requires
        0 <= k < es.len(),
    ensures
        exists|m: int|
            0 <= m < first_of_each_id(es).len() && #[trigger] first_of_each_id(es)[m].0 == es[k].0,
    decreases es.len(),
{
    let kept = first_of_each_id(es.drop_last());
    if k < es.len() - 1 {
        lemma_catalog_keeps_every_id(es.drop_last(), k);
        let m = choose|m: int| 0 <= m < kept.len() && #[trigger] kept[m].0 == es.drop_last()[k].0;
        assert(first_of_each_id(es)[m] == kept[m]);
    } else {
        if exists|m: int| 0 <= m < kept.len() && #[trigger] kept[m].0 == es.last().0 {
            let m = choose|m: int| 0 <= m < kept.len() && #[trigger] kept[m].0 == es.last().0;
            assert(first_of_each_id(es)[m] == kept[m]);
        } else {
            assert(first_of_each_id(es)[kept.len() as int] == es.last());
        }
    }
}

/// Each catalogue entry is the first entry of the sources with its id.
pub proof fn lemma_catalog_keeps_first_occurrence(es: Seq<(Seq<char>, GridPos, Panel)>, m: int)
    requires
        0 <= m < first_of_each_id(es).len(),
    ensures
        exists|k: int|
            0 <= k < es.len() && es[k] == first_of_each_id(es)[m] && forall|k2: int|
                0 <= k2 < k ==> #[trigger] es[k2].0 != es[k].0,
    decreases es.len(),
{
    let kept = first_of_each_id(es.drop_last());
    let pre = es.drop_last();
    if m < kept.len() {
        lemma_catalog_keeps_first_occurrence(pre, m);
        let k = choose|k: int|
            0 <= k < pre.len() && pre[k] == kept[m] && forall|k2: int|
                0 <= k2 < k ==> #[trigger] pre[k2].0 != pre[k].0;
        assert(es[k] == pre[k]);
        assert forall|k2: int| 0 <= k2 < k implies #[trigger] es[k2].0 != es[k].0 by {
            assert(es[k2] == pre[k2]);
        }
    } else {
        let k = es.len() - 1;
        assert(first_of_each_id(es)[m] == es.last());
        assert forall|k2: int| 0 <= k2 < k implies #[trigger] es[k2].0 != es[k].0 by {
            if es[k2].0 == es[k].0 {
                assert(es[k2] == pre[k2]);
                lemma_catalog_keeps_every_id(pre, k2);
            }
        }
    }
}

} // verus!
