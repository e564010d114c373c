use vstd::prelude::*;

use crate::geom::{Coord, GeomV, Geometry, PolyV, PolygonGeom, geom_v, geoms_v};
use crate::variant::{BuilderModel, BuilderState, VariantBuilder, appended, nulls, padded};
use crate::{EncodeWarning, GeoError, finite_bits};

verus! {

// ---------------------------------------------------------------------------
// Finiteness of coordinates
// ---------------------------------------------------------------------------
/// Both ordinates of the coordinate are finite numbers.
pub open spec fn coord_finite(c: Coord) -> bool {
    finite_bits(c.x) && finite_bits(c.y)
}

/// Every coordinate of the sequence is finite.
pub open spec fn coords_finite(s: Seq<Coord>) -> bool {
    forall|i: int| 0 <= i < s.len() ==> coord_finite(s[i])
}

/// Every coordinate of every ring is finite.
pub open spec fn rings_finite(ss: Seq<Seq<Coord>>) -> bool {
    forall|i: int| 0 <= i < ss.len() ==> coords_finite(ss[i])
}

/// Every coordinate of every ring of every polygon is finite.
pub open spec fn rings3_finite(sss: Seq<Seq<Seq<Coord>>>) -> bool {
    forall|i: int| 0 <= i < sss.len() ==> rings_finite(sss[i])
}

/// Every coordinate of the polygon, exterior and interiors, is
/// finite.
pub open spec fn poly_finite(p: PolyV) -> bool {
    coords_finite(p.exterior) && rings_finite(p.interiors)
}

/// The storage form of a polygon: its exterior ring first, then the
/// interior rings.
pub open spec fn rings_of(p: PolyV) -> Seq<Seq<Coord>> {
    seq![p.exterior] + p.interiors
}

/// The storage forms of a sequence of polygons.
pub open spec fn polys_rings(ps: Seq<PolyV>) -> Seq<Seq<Seq<Coord>>> {
    ps.map_values(|p: PolyV| rings_of(p))
}

// ---------------------------------------------------------------------------
// Flattening of collections
// ---------------------------------------------------------------------------
/// The flat member list of a geometry: nested collections are merged
/// into one list of non-collection members.
pub open spec fn flatten_v(g: GeomV) -> Seq<GeomV>
    decreases g, 0int,
{
    match g {
        GeomV::Collection(ms) => flatten_seq(ms),
        _ => seq![g],
    }
}

/// The concatenation of the flat member lists of a sequence of
/// geometries.
pub open spec fn flatten_seq(ms: Seq<GeomV>) -> Seq<GeomV>
    decreases ms, 1int,
{
    if ms.len() == 0 {
        Seq::empty()
    } else {
        flatten_v(ms.first()) + flatten_seq(ms.drop_first())
    }
}

// ---------------------------------------------------------------------------
// Routing plans
// ---------------------------------------------------------------------------
/// What one encoder call writes: for each variant kind, either leave
/// the builder untouched (`None`) or append one entry (`Some`, itself
/// a value or a null), plus the row-local warnings raised.
#[verifier::ext_equal]
pub struct RoutePlan {
    pub point: Option<Option<Coord>>,
    pub multi_point: Option<Option<Seq<Coord>>>,
    pub line_string: Option<Option<Seq<Coord>>>,
    pub multi_line_string: Option<Option<Seq<Seq<Coord>>>>,
    pub polygon: Option<Option<Seq<Seq<Coord>>>>,
    pub multi_polygon: Option<Option<Seq<Seq<Seq<Coord>>>>>,
    pub warnings: Seq<GeoError>,
}

impl RoutePlan {
    /// A plan that writes nothing and warns of nothing.
    pub open spec fn empty() -> RoutePlan {
        RoutePlan {
            point: None,
            multi_point: None,
            line_string: None,
            multi_line_string: None,
            polygon: None,
            multi_polygon: None,
            warnings: Seq::empty(),
        }
    }
}

/// The entry and warnings for one point value: a malformed coordinate
/// degrades to a null entry with a warning.
pub open spec fn point_entry(c: Coord) -> (Option<Coord>, Seq<GeoError>) {
    if coord_finite(c) {
        (Some(c), Seq::empty())
    } else {
        (None, seq![GeoError::MalformedCoordinate])
    }
}

/// The entry and warnings for one list-of-coordinates value.
pub open spec fn coords_entry(s: Seq<Coord>) -> (Option<Seq<Coord>>, Seq<GeoError>) {
    if coords_finite(s) {
        (Some(s), Seq::empty())
    } else {
        (None, seq![GeoError::MalformedCoordinate])
    }
}

/// The entry and warnings for one list-of-rings value.
pub open spec fn rings_entry(ss: Seq<Seq<Coord>>) -> (Option<Seq<Seq<Coord>>>, Seq<GeoError>) {
    if rings_finite(ss) {
        (Some(ss), Seq::empty())
    } else {
        (None, seq![GeoError::MalformedCoordinate])
    }
}

/// The entry and warnings for one list-of-polygons value.
pub open spec fn rings3_entry(sss: Seq<Seq<Seq<Coord>>>) -> (
    Option<Seq<Seq<Seq<Coord>>>>,
    Seq<GeoError>,
) {
    if rings3_finite(sss) {
        (Some(sss), Seq::empty())
    } else {
        (None, seq![GeoError::MalformedCoordinate])
    }
}

/// The plan for a single non-collection geometry. A collection here
/// stands for a kind the router cannot place and is dropped with a
/// warning; the router only reaches that case for inputs it has
/// already flattened, which hold no collections.
pub open spec fn route_simple(g: GeomV) -> RoutePlan {
    match g {
        GeomV::Point(c) => RoutePlan {
            point: Some(point_entry(c).0),
            warnings: point_entry(c).1,
            ..RoutePlan::empty()
        },
        GeomV::MultiPoint(s) => RoutePlan {
            multi_point: Some(coords_entry(s).0),
            warnings: coords_entry(s).1,
            ..RoutePlan::empty()
        },
        GeomV::LineString(s) => RoutePlan {
            line_string: Some(coords_entry(s).0),
            warnings: coords_entry(s).1,
            ..RoutePlan::empty()
        },
        GeomV::MultiLineString(ss) => RoutePlan {
            multi_line_string: Some(rings_entry(ss).0),
            warnings: rings_entry(ss).1,
            ..RoutePlan::empty()
        },
        GeomV::Polygon(p) => RoutePlan {
            polygon: Some(rings_entry(rings_of(p)).0),
            warnings: rings_entry(rings_of(p)).1,
            ..RoutePlan::empty()
        },
        GeomV::MultiPolygon(ps) => RoutePlan {
            multi_polygon: Some(rings3_entry(polys_rings(ps)).0),
            warnings: rings3_entry(polys_rings(ps)).1,
            ..RoutePlan::empty()
        },
        GeomV::Collection(_) => RoutePlan {
            warnings: seq![GeoError::UnsupportedGeometryKind],
            ..RoutePlan::empty()
        },
    }
}

/// The buckets of a flat member list: the point members, the
/// line-string members, the polygon members, and one warning for each
/// member of a kind that cannot stand inside a mixed collection.
pub open spec fn buckets(flat: Seq<GeomV>) -> (Seq<Coord>, Seq<Seq<Coord>>, Seq<PolyV>, Seq<
    GeoError,
>)
    decreases flat.len(),
{
    if flat.len() == 0 {
        (Seq::empty(), Seq::empty(), Seq::empty(), Seq::empty())
    } else {
        let rest = buckets(flat.drop_first());
        match flat.first() {
            GeomV::Point(c) => (seq![c] + rest.0, rest.1, rest.2, rest.3),
            GeomV::LineString(s) => (rest.0, seq![s] + rest.1, rest.2, rest.3),
            GeomV::Polygon(p) => (rest.0, rest.1, seq![p] + rest.2, rest.3),
            _ => (rest.0, rest.1, rest.2, seq![GeoError::UnsupportedGeometryKind] + rest.3),
        }
    }
}

/// The plan of the point bucket.
pub open spec fn point_bucket_plan(points: Seq<Coord>) -> RoutePlan {
    if points.len() == 0 {
        RoutePlan::empty()
    } else if points.len() == 1 {
        RoutePlan {
            point: Some(point_entry(points[0]).0),
            warnings: point_entry(points[0]).1,
            ..RoutePlan::empty()
        }
    } else {
        RoutePlan {
            multi_point: Some(coords_entry(points).0),
            warnings: coords_entry(points).1,
            ..RoutePlan::empty()
        }
    }
}

/// The plan of the line-string bucket.
pub open spec fn line_bucket_plan(lines: Seq<Seq<Coord>>) -> RoutePlan {
    if lines.len() == 0 {
        RoutePlan::empty()
    } else if lines.len() == 1 {
        RoutePlan {
            line_string: Some(coords_entry(lines[0]).0),
            warnings: coords_entry(lines[0]).1,
            ..RoutePlan::empty()
        }
    } else {
        RoutePlan {
            multi_line_string: Some(rings_entry(lines).0),
            warnings: rings_entry(lines).1,
            ..RoutePlan::empty()
        }
    }
}

/// The plan of the polygon bucket.
pub open spec fn poly_bucket_plan(polys: Seq<PolyV>) -> RoutePlan {
    if polys.len() == 0 {
        RoutePlan::empty()
    } else if polys.len() == 1 {
        RoutePlan {
            polygon: Some(rings_entry(rings_of(polys[0])).0),
            warnings: rings_entry(rings_of(polys[0])).1,
            ..RoutePlan::empty()
        }
    } else {
        RoutePlan {
            multi_polygon: Some(rings3_entry(polys_rings(polys)).0),
            warnings: rings3_entry(polys_rings(polys)).1,
            ..RoutePlan::empty()
        }
    }
}

/// The plan of a flattened member list: an empty list writes nothing,
/// a single member routes as that member, two or more members are
/// bucketed by kind, each bucket routing to the singular builder for
/// one member and to the multi builder for several. The unsupported
/// warnings of the scan come before the buckets' own warnings, which
/// follow in point, line, polygon order.
pub open spec fn route_members(flat: Seq<GeomV>) -> RoutePlan {
    if flat.len() == 0 {
        RoutePlan::empty()
    } else if flat.len() == 1 {
        route_simple(flat[0])
    } else {
        let (points, lines, polys, warns) = buckets(flat);
        let pp = point_bucket_plan(points);
        let lp = line_bucket_plan(lines);
        let qp = poly_bucket_plan(polys);
        RoutePlan {
            point: pp.point,
            multi_point: pp.multi_point,
            line_string: lp.line_string,
            multi_line_string: lp.multi_line_string,
            polygon: qp.polygon,
            multi_polygon: qp.multi_polygon,
            warnings: warns + pp.warnings + lp.warnings + qp.warnings,
        }
    }
}

/// The plan of one encoder input.
pub open spec fn route(v: Option<GeomV>) -> RoutePlan {
    match v {
        None => RoutePlan::empty(),
        Some(g) => match g {
            GeomV::Collection(ms) => route_members(flatten_seq(ms)),
            _ => route_simple(g),
        },
    }
}

// ---------------------------------------------------------------------------
// The encoder model and its transition
// ---------------------------------------------------------------------------
/// Mathematical value of a `Builders` row encoder.
#[verifier::ext_equal]
pub struct EncModel {
    pub point: BuilderModel<Coord>,
    pub multi_point: BuilderModel<Seq<Coord>>,
    pub line_string: BuilderModel<Seq<Coord>>,
    pub multi_line_string: BuilderModel<Seq<Seq<Coord>>>,
    pub polygon: BuilderModel<Seq<Seq<Coord>>>,
    pub multi_polygon: BuilderModel<Seq<Seq<Seq<Coord>>>>,
    pub name: BuilderModel<Seq<char>>,
    pub description: BuilderModel<Seq<char>>,
    pub row: int,
    pub warnings: Seq<EncodeWarning>,
    pub finished: bool,
}

impl EncModel {
    /// The state of a freshly created encoder.
    pub open spec fn init() -> EncModel {
        EncModel {
            point: BuilderModel::uninitialized(),
            multi_point: BuilderModel::uninitialized(),
            line_string: BuilderModel::uninitialized(),
            multi_line_string: BuilderModel::uninitialized(),
            polygon: BuilderModel::uninitialized(),
            multi_polygon: BuilderModel::uninitialized(),
            name: BuilderModel::empty_active(),
            description: BuilderModel::empty_active(),
            row: 0,
            warnings: Seq::empty(),
            finished: false,
        }
    }

    /// Basic sanity of an encoder state: every builder has accounted
    /// for at most the rows seen so far plus the one being assembled,
    /// and every polygon-shaped entry written so far carries its
    /// exterior ring.
    pub open spec fn wf(self) -> bool {
        &&& 0 <= self.row
        &&& self.point.cursor() <= self.row + 1
        &&& self.multi_point.cursor() <= self.row + 1
        &&& self.line_string.cursor() <= self.row + 1
        &&& self.multi_line_string.cursor() <= self.row + 1
        &&& self.polygon.cursor() <= self.row + 1
        &&& self.multi_polygon.cursor() <= self.row + 1
        &&& self.name.cursor() <= self.row + 1
        &&& self.description.cursor() <= self.row + 1
        &&& entries_have_exteriors(self.polygon.entries)
        &&& entries3_have_exteriors(self.multi_polygon.entries)
        &&& if self.finished {
            &&& self.point.state == BuilderState::Finished
            &&& self.multi_point.state == BuilderState::Finished
            &&& self.line_string.state == BuilderState::Finished
            &&& self.multi_line_string.state == BuilderState::Finished
            &&& self.polygon.state == BuilderState::Finished
            &&& self.multi_polygon.state == BuilderState::Finished
            &&& self.name.state == BuilderState::Finished
            &&& self.description.state == BuilderState::Finished
        } else {
            &&& self.point.state != BuilderState::Finished
            &&& self.multi_point.state != BuilderState::Finished
            &&& self.line_string.state != BuilderState::Finished
            &&& self.multi_line_string.state != BuilderState::Finished
            &&& self.polygon.state != BuilderState::Finished
            &&& self.multi_polygon.state != BuilderState::Finished
            &&& self.name.state == BuilderState::Active
            &&& self.description.state == BuilderState::Active
        }
    }
}

/// Every present polygon-shaped entry holds at least one ring (the
/// exterior).
pub open spec fn entries_have_exteriors(entries: Seq<Option<Seq<Seq<Coord>>>>) -> bool {
    forall|i: int|
        0 <= i < entries.len() && entries[i] is Some ==> entries[i]->0.len() >= 1
}

/// Every polygon inside every present multi-polygon entry holds at
/// least one ring.
pub open spec fn entries3_have_exteriors(entries: Seq<Option<Seq<Seq<Seq<Coord>>>>>) -> bool {
    forall|i: int, j: int|
        0 <= i < entries.len() && entries[i] is Some && 0 <= j < entries[i]->0.len()
            ==> entries[i]->0[j].len() >= 1
}

/// Whether applying `plan` at the current row would claim a variant
/// kind that already holds an entry for that row.
pub open spec fn plan_conflicts(m: EncModel, plan: RoutePlan) -> bool {
    ||| plan.point is Some && m.point.cursor() > m.row
    ||| plan.multi_point is Some && m.multi_point.cursor() > m.row
    ||| plan.line_string is Some && m.line_string.cursor() > m.row
    ||| plan.multi_line_string is Some && m.multi_line_string.cursor() > m.row
    ||| plan.polygon is Some && m.polygon.cursor() > m.row
    ||| plan.multi_polygon is Some && m.multi_polygon.cursor() > m.row
}

/// One builder after a plan write, at row `row`.
pub open spec fn written<TV>(b: BuilderModel<TV>, w: Option<Option<TV>>, row: int) -> BuilderModel<
    TV,
> {
    match w {
        None => b,
        Some(e) => BuilderModel {
            state: BuilderState::Active,
            entries: appended(b.entries, row, e),
        },
    }
}

/// The warnings of a plan, stamped with the row they concern.
pub open spec fn stamped(warns: Seq<GeoError>, row: int) -> Seq<EncodeWarning> {
    warns.map_values(|k: GeoError| EncodeWarning { kind: k, row: row as usize })
}

/// The encoder state after applying `plan` and, when `complete` is
/// set, counting the row as done.
pub open spec fn apply_plan(m: EncModel, plan: RoutePlan, complete: bool) -> EncModel {
    EncModel {
        point: written(m.point, plan.point, m.row),
        multi_point: written(m.multi_point, plan.multi_point, m.row),
        line_string: written(m.line_string, plan.line_string, m.row),
        multi_line_string: written(m.multi_line_string, plan.multi_line_string, m.row),
        polygon: written(m.polygon, plan.polygon, m.row),
        multi_polygon: written(m.multi_polygon, plan.multi_polygon, m.row),
        name: m.name,
        description: m.description,
        row: if complete {
            m.row + 1
        } else {
            m.row
        },
        warnings: m.warnings + stamped(plan.warnings, m.row),
        finished: m.finished,
    }
}


// ---------------------------------------------------------------------------
// Executable helpers
// ---------------------------------------------------------------------------
/// Whether both ordinates of `c` are finite.
pub fn coord_ok(c: &Coord) -> (r: bool)
    ensures
        r == coord_finite(*c),
{
    crate::is_finite_bits(c.x) && crate::is_finite_bits(c.y)
}

/// Whether every coordinate of `v` is finite.
pub fn coords_ok(v: &Vec<Coord>) -> (r: bool)
    ensures
        r == coords_finite(v.deep_view()),
{
    let mut i: usize = 0;
    while i < v.len()
        invariant
            0 <= i <= v.len(),
            forall|j: int| 0 <= j < i ==> coord_finite(v.deep_view()[j]),
        decreases v.len() - i,
    {
        if !coord_ok(&v[i]) {
            proof {
                assert(!coord_finite(v.deep_view()[i as int]));
            }
            return false;
        }
        i = i + 1;
    }
    true
}

/// Whether every coordinate of every ring of `v` is finite.
pub fn rings_ok(v: &Vec<Vec<Coord>>) -> (r: bool)
    ensures
        r == rings_finite(v.deep_view()),
{
    let mut i: usize = 0;
    while i < v.len()
        invariant
            0 <= i <= v.len(),
            forall|j: int| 0 <= j < i ==> coords_finite(v.deep_view()[j]),
        decreases v.len() - i,
    {
        if !coords_ok(&v[i]) {
            proof {
                assert(!coords_finite(v.deep_view()[i as int]));
            }
            return false;
        }
        i = i + 1;
    }
    true
}

/// Whether every coordinate of every ring of every polygon of `v` is
/// finite.
pub fn rings3_ok(v: &Vec<Vec<Vec<Coord>>>) -> (r: bool)
    ensures
        r == rings3_finite(v.deep_view()),
{
    let mut i: usize = 0;
    while i < v.len()
        invariant
            0 <= i <= v.len(),
            forall|j: int| 0 <= j < i ==> rings_finite(v.deep_view()[j]),
        decreases v.len() - i,
    {
        if !rings_ok(&v[i]) {
            proof {
                assert(!rings_finite(v.deep_view()[i as int]));
            }
            return false;
        }
        i = i + 1;
    }
    true
}

/// Turn a polygon into its storage form: the exterior ring first, then
/// the interior rings.
pub fn polygon_rings(polygon: PolygonGeom) -> (r: Vec<Vec<Coord>>)
    ensures
        r.deep_view() == rings_of(polygon.deep_view()),
        r.deep_view().len() >= 1,
{
    let ghost pv = polygon.deep_view();
    let PolygonGeom { exterior, mut interiors } = polygon;
    let mut rings: Vec<Vec<Coord>> = Vec::new();
    rings.push(exterior);
    proof {
        assert(rings.deep_view() + interiors.deep_view() =~= rings_of(pv));
    }
    while interiors.len() > 0
        invariant
            rings.deep_view() + interiors.deep_view() == rings_of(pv),
            rings.deep_view().len() >= 1,
        decreases interiors.len(),
    {
        let ghost rv = rings.deep_view();
        let ghost iv = interiors.deep_view();
        let ring = interiors.remove(0);
        rings.push(ring);
        proof {
            assert(interiors.deep_view() =~= iv.drop_first());
            assert(rings.deep_view() =~= rv.push(iv.first()));
            assert(rings.deep_view() + interiors.deep_view() =~= rv + iv);
        }
    }
    proof {
        assert(rings.deep_view() =~= rings.deep_view() + interiors.deep_view());
    }
    rings
}

/// Turn a list of polygons into its storage form.
pub fn polygons_rings(polygons: Vec<PolygonGeom>) -> (r: Vec<Vec<Vec<Coord>>>)
    ensures
        r.deep_view() == polys_rings(polygons.deep_view()),
{
    let ghost pv = polygons.deep_view();
    let mut rest = polygons;
    let mut out: Vec<Vec<Vec<Coord>>> = Vec::new();
    while rest.len() > 0
        invariant
            out.deep_view().len() + rest.deep_view().len() == pv.len(),
            out.deep_view().len() <= pv.len(),
            forall|j: int|
                0 <= j < out.deep_view().len() ==> out.deep_view()[j] == rings_of(pv[j]),
            forall|j: int|
                0 <= j < rest.deep_view().len() ==> rest.deep_view()[j] == pv[out.deep_view().len()
                    + j],
        decreases rest.len(),
    {
        let ghost ov = out.deep_view();
        let ghost rv = rest.deep_view();
        let poly = rest.remove(0);
        proof {
            assert(poly.deep_view() == rv[0]);
            assert(rv[0] == pv[ov.len() as int]);
        }
        let rings = polygon_rings(poly);
        out.push(rings);
        proof {
            assert(rest.deep_view() =~= rv.drop_first());
            assert(out.deep_view() =~= ov.push(rings.deep_view()));
            assert(out.deep_view()[ov.len() as int] == rings_of(pv[ov.len() as int]));
        }
    }
    proof {
        assert(out.deep_view() =~= polys_rings(pv));
    }
    out
}

// ---------------------------------------------------------------------------
// The row encoder
// ---------------------------------------------------------------------------
/// The row encoder: one lazily created, row-synchronized builder per
/// geometry kind, two attribute builders that exist from the start,
/// the current row, and the warnings raised so far.
pub struct Builders {
    point: VariantBuilder<Coord>,
    multi_point: VariantBuilder<Vec<Coord>>,
    line_string: VariantBuilder<Vec<Coord>>,
    multi_line_string: VariantBuilder<Vec<Vec<Coord>>>,
    polygon: VariantBuilder<Vec<Vec<Coord>>>,
    multi_polygon: VariantBuilder<Vec<Vec<Vec<Coord>>>>,
    name: VariantBuilder<String>,
    description: VariantBuilder<String>,
    row: usize,
    warnings: Vec<EncodeWarning>,
    finished: bool,
}

impl View for Builders {
    type V = EncModel;

    closed spec fn view(&self) -> EncModel {
        EncModel {
            point: self.point@,
            multi_point: self.multi_point@,
            line_string: self.line_string@,
            multi_line_string: self.multi_line_string@,
            polygon: self.polygon@,
            multi_polygon: self.multi_polygon@,
            name: self.name@,
            description: self.description@,
            row: self.row as int,
            warnings: self.warnings@,
            finished: self.finished,
        }
    }
}

impl Builders {
    /// A fresh encoder: no geometry builder materialized, the two
    /// attribute builders present and empty, no row counted yet.
    pub fn new() -> (b: Builders)
        ensures
            b@ == EncModel::init(),
            b@.wf(),
    {
        let b = Builders {
            point: VariantBuilder::new(),
            multi_point: VariantBuilder::new(),
            line_string: VariantBuilder::new(),
            multi_line_string: VariantBuilder::new(),
            polygon: VariantBuilder::new(),
            multi_polygon: VariantBuilder::new(),
            name: VariantBuilder::new_active(),
            description: VariantBuilder::new_active(),
            row: 0,
            warnings: Vec::new(),
            finished: false,
        };
        proof {
            assert(b@ =~= EncModel::init());
        }
        b
    }

    /// The number of rows counted so far.
    pub fn current_row(&self) -> (n: usize)
        ensures
            n == self@.row,
    {
        self.row
    }

    /// The row-local conditions recovered from so far.
    pub fn warnings(&self) -> (w: &Vec<EncodeWarning>)
        ensures
            w@ == self@.warnings,
    {
        &self.warnings
    }

    /// Count the current row as done.
    fn advance_row(&mut self)
        requires
            old(self)@.row < usize::MAX,
        ensures
            final(self)@ == (EncModel { row: old(self)@.row + 1, ..old(self)@ }),
    {
        self.row = self.row + 1;
        proof {
            assert(self@ =~= (EncModel { row: old(self)@.row + 1, ..old(self)@ }));
        }
    }

    /// Record one warning against the current row.
    fn warn(&mut self, kind: GeoError)
        ensures
            final(self)@ == (EncModel {
                warnings: old(self)@.warnings + stamped(seq![kind], old(self)@.row),
                ..old(self)@
            }),
    {
        let row = self.row;
        self.warnings.push(EncodeWarning { kind, row });
        proof {
            assert(stamped(seq![kind], old(self)@.row) =~= seq![
                EncodeWarning { kind, row: old(self)@.row as usize },
            ]);
            assert(self@.warnings =~= old(self)@.warnings + stamped(seq![kind], old(self)@.row));
            assert(self@ =~= (EncModel {
                warnings: old(self)@.warnings + stamped(seq![kind], old(self)@.row),
                ..old(self)@
            }));
        }
    }
}

// ---------------------------------------------------------------------------
// Appending one value
// ---------------------------------------------------------------------------
/// What appending one simple (non-collection) geometry does: a sealed
/// encoder refuses with `InvalidState`; a kind already holding an
/// entry for the current row refuses with `SchemaConflict`; otherwise
/// the routed entry is written and, when `add_row` is set, the row is
/// counted.
pub open spec fn simple_add_spec(
    m0: EncModel,
    m1: EncModel,
    g: GeomV,
    add_row: bool,
    r: Result<(), GeoError>,
) -> bool {
    &&& (m0.finished ==> r == Err::<(), GeoError>(GeoError::InvalidState) && m1 == m0)
    &&& (!m0.finished && plan_conflicts(m0, route_simple(g)) ==> r == Err::<(), GeoError>(
        GeoError::SchemaConflict,
    ) && m1 == m0)
    &&& (!m0.finished && !plan_conflicts(m0, route_simple(g)) ==> r == Ok::<(), GeoError>(())
        && m1 == apply_plan(m0, route_simple(g), add_row))
}

/// Appending an entry whose rings all carry an exterior keeps the
/// polygon-shape invariant.
proof fn lemma_exteriors_appended(
    entries: Seq<Option<Seq<Seq<Coord>>>>,
    target: int,
    e: Option<Seq<Seq<Coord>>>,
)
    requires
        entries_have_exteriors(entries),
        e is Some ==> e->0.len() >= 1,
        entries.len() <= target,
    ensures
        entries_have_exteriors(appended(entries, target, e)),
{
    let a = appended(entries, target, e);
    assert forall|i: int| 0 <= i < a.len() && a[i] is Some implies a[i]->0.len() >= 1 by {
        if i < entries.len() {
            assert(a[i] == entries[i]);
        } else if i < target {
            assert(a[i] is None);
        } else {
            assert(a[i] == e);
        }
    }
}

/// The same for multi-polygon entries.
proof fn lemma_exteriors3_appended(
    entries: Seq<Option<Seq<Seq<Seq<Coord>>>>>,
    target: int,
    e: Option<Seq<Seq<Seq<Coord>>>>,
)
    requires
        entries3_have_exteriors(entries),
        e is Some ==> forall|j: int| 0 <= j < e->0.len() ==> e->0[j].len() >= 1,
        entries.len() <= target,
    ensures
        entries3_have_exteriors(appended(entries, target, e)),
{
    let a = appended(entries, target, e);
    assert forall|i: int, j: int|
        0 <= i < a.len() && a[i] is Some && 0 <= j < a[i]->0.len() implies a[i]->0[j].len()
        >= 1 by {
        if i < entries.len() {
            assert(a[i] == entries[i]);
        } else if i < target {
            assert(a[i] is None);
        } else {
            assert(a[i] == e);
        }
    }
}

impl Builders {
    /// Append one point for the current row; see `simple_add_spec`.
    pub fn add_point(&mut self, point: Coord, add_row: bool) -> (r: Result<(), GeoError>)
        requires
            old(self)@.wf(),
            old(self)@.row < usize::MAX,
        ensures
            final(self)@.wf(),
            simple_add_spec(old(self)@, final(self)@, GeomV::Point(point), add_row, r),
    {
        if self.finished {
            return Err(GeoError::InvalidState);
        }
        if self.point.cursor() > self.row {
            return Err(GeoError::SchemaConflict);
        }
        let row = self.row;
        let finite = coord_ok(&point);
        if !finite {
            self.warn(GeoError::MalformedCoordinate);
        }
        let entry: Option<Coord> = if finite {
            Some(point)
        } else {
            None
        };
        let _ = self.point.append_entry(entry, row);
        if add_row {
            self.advance_row();
        }
        proof {
            if finite {
                assert(old(self)@.warnings + stamped(Seq::<GeoError>::empty(), row as int)
                    =~= old(self)@.warnings);
            }
            assert(self@ =~~= apply_plan(
                old(self)@,
                route_simple(GeomV::Point(point)),
                add_row,
            ));
        }
        Ok(())
    }

    /// Append one multi-point (a list of points stored as one entry)
    /// for the current row; see `simple_add_spec`.
    pub fn add_points(&mut self, points: Vec<Coord>, add_row: bool) -> (r: Result<(), GeoError>)
        requires
            old(self)@.wf(),
            old(self)@.row < usize::MAX,
        ensures
            final(self)@.wf(),
            simple_add_spec(
                old(self)@,
                final(self)@,
                GeomV::MultiPoint(points.deep_view()),
                add_row,
                r,
            ),
    {
        if self.finished {
            return Err(GeoError::InvalidState);
        }
        if self.multi_point.cursor() > self.row {
            return Err(GeoError::SchemaConflict);
        }
        let row = self.row;
        let finite = coords_ok(&points);
        if !finite {
            self.warn(GeoError::MalformedCoordinate);
        }
        let ghost pv = points.deep_view();
        let entry: Option<Vec<Coord>> = if finite {
            Some(points)
        } else {
            None
        };
        let _ = self.multi_point.append_entry(entry, row);
        if add_row {
            self.advance_row();
        }
        proof {
            if finite {
                assert(old(self)@.warnings + stamped(Seq::<GeoError>::empty(), row as int)
                    =~= old(self)@.warnings);
            }
            assert(self@ =~~= apply_plan(
                old(self)@,
                route_simple(GeomV::MultiPoint(pv)),
                add_row,
            ));
        }
        Ok(())
    }

    /// Append one line string for the current row; see
    /// `simple_add_spec`.
    pub fn add_line(&mut self, coords: Vec<Coord>, add_row: bool) -> (r: Result<(), GeoError>)
        requires
            old(self)@.wf(),
            old(self)@.row < usize::MAX,
        ensures
            final(self)@.wf(),
            simple_add_spec(
                old(self)@,
                final(self)@,
                GeomV::LineString(coords.deep_view()),
                add_row,
                r,
            ),
    {
        if self.finished {
            return Err(GeoError::InvalidState);
        }
        if self.line_string.cursor() > self.row {
            return Err(GeoError::SchemaConflict);
        }
        let row = self.row;
        let finite = coords_ok(&coords);
        if !finite {
            self.warn(GeoError::MalformedCoordinate);
        }
        let ghost cv = coords.deep_view();
        let entry: Option<Vec<Coord>> = if finite {
            Some(coords)
        } else {
            None
        };
        let _ = self.line_string.append_entry(entry, row);
        if add_row {
            self.advance_row();
        }
        proof {
            if finite {
                assert(old(self)@.warnings + stamped(Seq::<GeoError>::empty(), row as int)
                    =~= old(self)@.warnings);
            }
            assert(self@ =~~= apply_plan(
                old(self)@,
                route_simple(GeomV::LineString(cv)),
                add_row,
            ));
        }
        Ok(())
    }

    /// Append one multi line string for the current row; see
    /// `simple_add_spec`.
    pub fn add_lines(&mut self, coords: Vec<Vec<Coord>>, add_row: bool) -> (r: Result<
        (),
        GeoError,
    >)
        requires
            old(self)@.wf(),
            old(self)@.row < usize::MAX,
        ensures
            final(self)@.wf(),
            simple_add_spec(
                old(self)@,
                final(self)@,
                GeomV::MultiLineString(coords.deep_view()),
                add_row,
                r,
            ),
    {
        if self.finished {
            return Err(GeoError::InvalidState);
        }
        if self.multi_line_string.cursor() > self.row {
            return Err(GeoError::SchemaConflict);
        }
        let row = self.row;
        let finite = rings_ok(&coords);
        if !finite {
            self.warn(GeoError::MalformedCoordinate);
        }
        let ghost cv = coords.deep_view();
        let entry: Option<Vec<Vec<Coord>>> = if finite {
            Some(coords)
        } else {
            None
        };
        let _ = self.multi_line_string.append_entry(entry, row);
        if add_row {
            self.advance_row();
        }
        proof {
            if finite {
                assert(old(self)@.warnings + stamped(Seq::<GeoError>::empty(), row as int)
                    =~= old(self)@.warnings);
            }
            assert(self@ =~~= apply_plan(
                old(self)@,
                route_simple(GeomV::MultiLineString(cv)),
                add_row,
            ));
        }
        Ok(())
    }

    /// Append one polygon for the current row, stored as its ring
    /// list; see `simple_add_spec`.
    pub fn add_polygon(&mut self, polygon: PolygonGeom, add_row: bool) -> (r: Result<
        (),
        GeoError,
    >)
        requires
            old(self)@.wf(),
            old(self)@.row < usize::MAX,
        ensures
            final(self)@.wf(),
            simple_add_spec(
                old(self)@,
                final(self)@,
                GeomV::Polygon(polygon.deep_view()),
                add_row,
                r,
            ),
    {
        if self.finished {
            return Err(GeoError::InvalidState);
        }
        if self.polygon.cursor() > self.row {
            return Err(GeoError::SchemaConflict);
        }
        let row = self.row;
        let ghost pv = polygon.deep_view();
        let rings = polygon_rings(polygon);
        let finite = rings_ok(&rings);
        if !finite {
            self.warn(GeoError::MalformedCoordinate);
        }
        let entry: Option<Vec<Vec<Coord>>> = if finite {
            Some(rings)
        } else {
            None
        };
        proof {
            lemma_exteriors_appended(
                self@.polygon.entries,
                row as int,
                entry.deep_view(),
            );
        }
        let _ = self.polygon.append_entry(entry, row);
        if add_row {
            self.advance_row();
        }
        proof {
            if finite {
                assert(old(self)@.warnings + stamped(Seq::<GeoError>::empty(), row as int)
                    =~= old(self)@.warnings);
            }
            assert(self@ =~~= apply_plan(
                old(self)@,
                route_simple(GeomV::Polygon(pv)),
                add_row,
            ));
        }
        Ok(())
    }

    /// Append one multi polygon for the current row, stored as a list
    /// of ring lists; see `simple_add_spec`.
    pub fn add_polygons(&mut self, polygons: Vec<PolygonGeom>, add_row: bool) -> (r: Result<
        (),
        GeoError,
    >)
        requires
            old(self)@.wf(),
            old(self)@.row < usize::MAX,
        ensures
            final(self)@.wf(),
            simple_add_spec(
                old(self)@,
                final(self)@,
                GeomV::MultiPolygon(polygons.deep_view()),
                add_row,
                r,
            ),
    {
        if self.finished {
            return Err(GeoError::InvalidState);
        }
        if self.multi_polygon.cursor() > self.row {
            return Err(GeoError::SchemaConflict);
        }
        let row = self.row;
        let ghost pv = polygons.deep_view();
        let payload = polygons_rings(polygons);
        let finite = rings3_ok(&payload);
        if !finite {
            self.warn(GeoError::MalformedCoordinate);
        }
        let entry: Option<Vec<Vec<Vec<Coord>>>> = if finite {
            Some(payload)
        } else {
            None
        };
        proof {
            if entry is Some {
                assert forall|j: int| 0 <= j < entry.deep_view()->0.len() implies entry.deep_view()->0[j].len() >= 1 by {
                    assert(entry.deep_view()->0[j] == rings_of(pv[j]));
                }
            }
            lemma_exteriors3_appended(
                self@.multi_polygon.entries,
                row as int,
                entry.deep_view(),
            );
        }
        let _ = self.multi_polygon.append_entry(entry, row);
        if add_row {
            self.advance_row();
        }
        proof {
            if finite {
                assert(old(self)@.warnings + stamped(Seq::<GeoError>::empty(), row as int)
                    =~= old(self)@.warnings);
            }
            assert(self@ =~~= apply_plan(
                old(self)@,
                route_simple(GeomV::MultiPolygon(pv)),
                add_row,
            ));
        }
        Ok(())
    }

    /// Attach the name attribute of the current row (a missing name is
    /// stored as null). Refused with `SchemaConflict` when the row
    /// already has one.
    pub fn add_name(&mut self, name: Option<String>) -> (r: Result<(), GeoError>)
        requires
            old(self)@.wf(),
        ensures
            final(self)@.wf(),
            old(self)@.finished ==> r == Err::<(), GeoError>(GeoError::InvalidState)
                && final(self)@ == old(self)@,
            !old(self)@.finished && old(self)@.name.cursor() > old(self)@.row ==> r == Err::<
                (),
                GeoError,
            >(GeoError::SchemaConflict) && final(self)@ == old(self)@,
            !old(self)@.finished && old(self)@.name.cursor() <= old(self)@.row ==> r == Ok::<
                (),
                GeoError,
            >(()) && final(self)@ == (EncModel {
                name: BuilderModel {
                    state: BuilderState::Active,
                    entries: appended(
                        old(self)@.name.entries,
                        old(self)@.row,
                        name.deep_view(),
                    ),
                },
                ..old(self)@
            }),
    {
        if self.finished {
            return Err(GeoError::InvalidState);
        }
        if self.name.cursor() > self.row {
            return Err(GeoError::SchemaConflict);
        }
        let row = self.row;
        let _ = self.name.append_entry(name, row);
        proof {
            assert(self@ =~~= (EncModel {
                name: BuilderModel {
                    state: BuilderState::Active,
                    entries: appended(
                        old(self)@.name.entries,
                        old(self)@.row,
                        name.deep_view(),
                    ),
                },
                ..old(self)@
            }));
        }
        Ok(())
    }

    /// Attach the description attribute of the current row; as
    /// `add_name`.
    pub fn add_description(&mut self, description: Option<String>) -> (r: Result<(), GeoError>)
        requires
            old(self)@.wf(),
        ensures
            final(self)@.wf(),
            old(self)@.finished ==> r == Err::<(), GeoError>(GeoError::InvalidState)
                && final(self)@ == old(self)@,
            !old(self)@.finished && old(self)@.description.cursor() > old(self)@.row ==> r
                == Err::<(), GeoError>(GeoError::SchemaConflict) && final(self)@ == old(self)@,
            !old(self)@.finished && old(self)@.description.cursor() <= old(self)@.row ==> r
                == Ok::<(), GeoError>(()) && final(self)@ == (EncModel {
                description: BuilderModel {
                    state: BuilderState::Active,
                    entries: appended(
                        old(self)@.description.entries,
                        old(self)@.row,
                        description.deep_view(),
                    ),
                },
                ..old(self)@
            }),
    {
        if self.finished {
            return Err(GeoError::InvalidState);
        }
        if self.description.cursor() > self.row {
            return Err(GeoError::SchemaConflict);
        }
        let row = self.row;
        let _ = self.description.append_entry(description, row);
        proof {
            assert(self@ =~~= (EncModel {
                description: BuilderModel {
                    state: BuilderState::Active,
                    entries: appended(
                        old(self)@.description.entries,
                        old(self)@.row,
                        description.deep_view(),
                    ),
                },
                ..old(self)@
            }));
        }
        Ok(())
    }
}


// ---------------------------------------------------------------------------
// Finishing the table
// ---------------------------------------------------------------------------
/// The table a finished encoder yields: every builder that ever
/// materialized is padded with nulls up to the row count and becomes a
/// column; a kind never observed yields no column at all; the
/// attribute columns are padded the same way.
pub open spec fn finish_model(m: EncModel) -> crate::table::TableModel {
    crate::table::TableModel {
        point: if m.point.state is Uninitialized {
            None
        } else {
            Some(padded(m.point.entries, m.row))
        },
        multi_point: if m.multi_point.state is Uninitialized {
            None
        } else {
            Some(padded(m.multi_point.entries, m.row))
        },
        line_string: if m.line_string.state is Uninitialized {
            None
        } else {
            Some(padded(m.line_string.entries, m.row))
        },
        multi_line_string: if m.multi_line_string.state is Uninitialized {
            None
        } else {
            Some(padded(m.multi_line_string.entries, m.row))
        },
        polygon: if m.polygon.state is Uninitialized {
            None
        } else {
            Some(padded(m.polygon.entries, m.row))
        },
        multi_polygon: if m.multi_polygon.state is Uninitialized {
            None
        } else {
            Some(padded(m.multi_polygon.entries, m.row))
        },
        name: padded(m.name.entries, m.row),
        description: padded(m.description.entries, m.row),
        row_count: m.row,
    }
}

/// Whether some builder already holds an entry for a row that was
/// never counted as done; finishing then would desynchronize the
/// columns.
pub open spec fn has_staged(m: EncModel) -> bool {
    ||| m.point.cursor() > m.row
    ||| m.multi_point.cursor() > m.row
    ||| m.line_string.cursor() > m.row
    ||| m.multi_line_string.cursor() > m.row
    ||| m.polygon.cursor() > m.row
    ||| m.multi_polygon.cursor() > m.row
    ||| m.name.cursor() > m.row
    ||| m.description.cursor() > m.row
}

/// The encoder after a successful finish: sealed, its buffers handed
/// out.
pub open spec fn sealed(m: EncModel) -> EncModel {
    EncModel {
        point: BuilderModel { state: BuilderState::Finished, entries: Seq::empty() },
        multi_point: BuilderModel { state: BuilderState::Finished, entries: Seq::empty() },
        line_string: BuilderModel { state: BuilderState::Finished, entries: Seq::empty() },
        multi_line_string: BuilderModel { state: BuilderState::Finished, entries: Seq::empty() },
        polygon: BuilderModel { state: BuilderState::Finished, entries: Seq::empty() },
        multi_polygon: BuilderModel { state: BuilderState::Finished, entries: Seq::empty() },
        name: BuilderModel { state: BuilderState::Finished, entries: Seq::empty() },
        description: BuilderModel { state: BuilderState::Finished, entries: Seq::empty() },
        row: m.row,
        warnings: m.warnings,
        finished: true,
    }
}

/// Padding with nulls keeps the polygon-shape invariant.
proof fn lemma_exteriors_padded(entries: Seq<Option<Seq<Seq<Coord>>>>, n: int)
    requires
        entries_have_exteriors(entries),
    ensures
        entries_have_exteriors(padded(entries, n)),
{
    let a = padded(entries, n);
    assert forall|i: int| 0 <= i < a.len() && a[i] is Some implies a[i]->0.len() >= 1 by {
        if i < entries.len() {
            assert(a[i] == entries[i]);
        } else {
            assert(a[i] is None);
        }
    }
}

/// The same for multi-polygon entries.
proof fn lemma_exteriors3_padded(entries: Seq<Option<Seq<Seq<Seq<Coord>>>>>, n: int)
    requires
        entries3_have_exteriors(entries),
    ensures
        entries3_have_exteriors(padded(entries, n)),
{
    let a = padded(entries, n);
    assert forall|i: int, j: int|
        0 <= i < a.len() && a[i] is Some && 0 <= j < a[i]->0.len() implies a[i]->0[j].len()
        >= 1 by {
        if i < entries.len() {
            assert(a[i] == entries[i]);
        } else {
            assert(a[i] is None);
        }
    }
}

impl Builders {
    /// Seal every builder, pad each to the row count, and assemble the
    /// sparse table. Fails with `InvalidState` when the encoder was
    /// already finished, or when an entry is staged for a row that was
    /// never completed; nothing changes then.
    pub fn finish_geometry(&mut self) -> (r: Result<
        crate::table::ColumnarGeometryTable,
        GeoError,
    >)
        requires
            old(self)@.wf(),
        ensures
            final(self)@.wf(),
            old(self)@.finished || has_staged(old(self)@) ==> r is Err && r->Err_0
                == GeoError::InvalidState && final(self)@ == old(self)@,
            !old(self)@.finished && !has_staged(old(self)@) ==> r is Ok && r->Ok_0@
                == finish_model(old(self)@) && r->Ok_0@.wf() && final(self)@ == sealed(
                old(self)@,
            ),
    {
        if self.finished {
            return Err(GeoError::InvalidState);
        }
        let row = self.row;
        if self.point.cursor() > row || self.multi_point.cursor() > row
            || self.line_string.cursor() > row || self.multi_line_string.cursor() > row
            || self.polygon.cursor() > row || self.multi_polygon.cursor() > row
            || self.name.cursor() > row || self.description.cursor() > row {
            return Err(GeoError::InvalidState);
        }
        let point_active = matches!(self.point.state(), BuilderState::Active);
        let point_col = match self.point.finish(row) {
            Ok(c) => if point_active {
                Some(c)
            } else {
                None
            },
            Err(e) => {
                proof {
                    assert(false);
                }
                return Err(e);
            },
        };
        let multi_point_active = matches!(self.multi_point.state(), BuilderState::Active);
        let multi_point_col = match self.multi_point.finish(row) {
            Ok(c) => if multi_point_active {
                Some(c)
            } else {
                None
            },
            Err(e) => {
                proof {
                    assert(false);
                }
                return Err(e);
            },
        };
        let line_string_active = matches!(self.line_string.state(), BuilderState::Active);
        let line_string_col = match self.line_string.finish(row) {
            Ok(c) => if line_string_active {
                Some(c)
            } else {
                None
            },
            Err(e) => {
                proof {
                    assert(false);
                }
                return Err(e);
            },
        };
        let multi_line_string_active = matches!(
            self.multi_line_string.state(),
            BuilderState::Active,
        );
        let multi_line_string_col = match self.multi_line_string.finish(row) {
            Ok(c) => if multi_line_string_active {
                Some(c)
            } else {
                None
            },
            Err(e) => {
                proof {
                    assert(false);
                }
                return Err(e);
            },
        };
        let polygon_active = matches!(self.polygon.state(), BuilderState::Active);
        let polygon_col = match self.polygon.finish(row) {
            Ok(c) => if polygon_active {
                Some(c)
            } else {
                None
            },
            Err(e) => {
                proof {
                    assert(false);
                }
                return Err(e);
            },
        };
        let multi_polygon_active = matches!(self.multi_polygon.state(), BuilderState::Active);
        let multi_polygon_col = match self.multi_polygon.finish(row) {
            Ok(c) => if multi_polygon_active {
                Some(c)
            } else {
                None
            },
            Err(e) => {
                proof {
                    assert(false);
                }
                return Err(e);
            },
        };
        let name_col = match self.name.finish(row) {
            Ok(c) => c,
            Err(e) => {
                proof {
                    assert(false);
                }
                return Err(e);
            },
        };
        let description_col = match self.description.finish(row) {
            Ok(c) => c,
            Err(e) => {
                proof {
                    assert(false);
                }
                return Err(e);
            },
        };
        self.finished = true;
        proof {
            lemma_exteriors_padded(old(self)@.polygon.entries, row as int);
            lemma_exteriors3_padded(old(self)@.multi_polygon.entries, row as int);
            assert(self@ =~~= sealed(old(self)@));
        }
        let t = crate::table::ColumnarGeometryTable::assemble(
            point_col,
            multi_point_col,
            line_string_col,
            multi_line_string_col,
            polygon_col,
            multi_polygon_col,
            name_col,
            description_col,
            row,
        );
        proof {
            assert(t@ =~~= finish_model(old(self)@));
        }
        Ok(t)
    }
}


// ---------------------------------------------------------------------------
// Encoding one input record
// ---------------------------------------------------------------------------
/// Append the flat members of `g` to `out`: members of nested
/// collections are merged in, in order; anything else is one member.
pub fn flatten_into(g: Geometry, out: &mut Vec<Geometry>)
    ensures
        final(out).deep_view() == old(out).deep_view() + flatten_v(geom_v(g)),
    decreases g,
{
    let ghost out0 = old(out).deep_view();
    match g {
        Geometry::Collection(gs) => {
            let ghost gs0 = gs;
            let mut rest = gs;
            let ghost mut k: int = 0;
            proof {
                assert(rest@ =~= gs0@.skip(0));
                crate::geom::lemma_vec_geoms_v(gs0);
            }
            while rest.len() > 0
                invariant
                    g == Geometry::Collection(gs0),
                    0 <= k <= gs0@.len(),
                    rest@ == gs0@.skip(k),
                    out.deep_view() + flatten_seq(rest.deep_view()) == out0 + flatten_seq(
                        gs0.deep_view(),
                    ),
                decreases rest.len(),
            {
                let ghost restv = rest.deep_view();
                let m = rest.remove(0);
                proof {
                    assert(gs0@.skip(k).len() > 0);
                    assert(m == gs0@.skip(k)[0]);
                    assert(m == gs0@[k]);
                    assert(gs0 == g->Collection_0);
                    assert(decreases_to!(g => gs0));
                    assert(decreases_to!(gs0 => gs0@));
                    assert(decreases_to!(gs0@ => gs0@[k]));
                    assert(rest@ =~= gs0@.skip(k + 1));
                    assert(rest.deep_view() =~= restv.drop_first());
                    assert(m.deep_view() == restv.first());
                    assert(flatten_seq(restv) == flatten_v(restv.first()) + flatten_seq(
                        restv.drop_first(),
                    ));
                    k = k + 1;
                }
                flatten_into(m, out);
            }
            proof {
                assert(rest.deep_view() =~= Seq::<GeomV>::empty());
                assert(flatten_seq(Seq::<GeomV>::empty()) =~= Seq::<GeomV>::empty());
                assert(out.deep_view() =~= out.deep_view() + flatten_seq(rest.deep_view()));
                assert(geom_v(g) == GeomV::Collection(geoms_v(gs0@)));
                assert(gs0.deep_view() == geoms_v(gs0@));
            }
        },
        _ => {
            proof {
                assert(flatten_v(geom_v(g)) =~= seq![geom_v(g)]);
            }
            let ghost before = out.deep_view();
            out.push(g);
            proof {
                assert(out.deep_view() =~= before.push(geom_v(g)));
                assert(out.deep_view() =~= out0 + flatten_v(geom_v(g)));
            }
        },
    }
}

impl Builders {
    /// Encode a collection input: flatten it, then route the members.
    #[verifier::spinoff_prover]
    #[verifier::rlimit(100)]
    fn encode_collection(&mut self, gs: Vec<Geometry>, complete_row: bool) -> (r: Result<
        (),
        GeoError,
    >)
        requires
            old(self)@.wf(),
            old(self)@.row < usize::MAX,
            !old(self)@.finished,
        ensures
            final(self)@.wf(),
            plan_conflicts(old(self)@, route_members(flatten_seq(gs.deep_view()))) ==> r
                == Err::<(), GeoError>(GeoError::SchemaConflict) && final(self)@ == old(self)@,
            !plan_conflicts(old(self)@, route_members(flatten_seq(gs.deep_view()))) ==> r
                == Ok::<(), GeoError>(()) && final(self)@ == apply_plan(
                old(self)@,
                route_members(flatten_seq(gs.deep_view())),
                complete_row,
            ),
    {
        let ghost flat_spec = flatten_seq(gs.deep_view());
        let mut flat: Vec<Geometry> = Vec::new();
        proof {
            crate::geom::lemma_vec_geoms_v(gs);
        }
        flatten_into(Geometry::Collection(gs), &mut flat);
        proof {
            assert(flat.deep_view() =~= flat_spec);
        }
        if flat.len() == 0 {
            if complete_row {
                self.advance_row();
            }
            proof {
                assert(old(self)@.warnings + stamped(Seq::<GeoError>::empty(), old(self)@.row)
                    =~= old(self)@.warnings);
                assert(self@ =~~= apply_plan(old(self)@, RoutePlan::empty(), complete_row));
            }
            return Ok(());
        }
        if flat.len() == 1 {
            let m = match flat.pop() {
                Some(m) => m,
                None => {
                    proof {
                        assert(false);
                    }
                    vstd::pervasive::unreached()
                },
            };
            proof {
                assert(geom_v(m) == flat_spec[0]);
            }
            return match m {
                Geometry::Point(c) => self.add_point(c, complete_row),
                Geometry::MultiPoint(v) => self.add_points(v, complete_row),
                Geometry::LineString(v) => self.add_line(v, complete_row),
                Geometry::MultiLineString(v) => self.add_lines(v, complete_row),
                Geometry::Polygon(p) => self.add_polygon(p, complete_row),
                Geometry::MultiPolygon(ps) => self.add_polygons(ps, complete_row),
                Geometry::Collection(_) => {
                    // Flattening leaves no collection behind; this arm
                    // only completes the router's case split.
                    self.warn(GeoError::UnsupportedGeometryKind);
                    if complete_row {
                        self.advance_row();
                    }
                    proof {
                        assert(self@ =~~= apply_plan(
                            old(self)@,
                            route_simple(flat_spec[0]),
                            complete_row,
                        ));
                    }
                    Ok(())
                },
            };
        }
        // Two or more members: bucket them by kind, then write each
        // bucket against the same row.
        let (points, lines, polys, unsupported) = bucket_members(flat);
        let ghost bk = buckets(flat_spec);
        // Refuse atomically if any routed kind already holds an entry
        // for this row.
        let row = self.row;
        let point_hit = (points.len() == 1 && self.point.cursor() > row) || (points.len() >= 2
            && self.multi_point.cursor() > row);
        let line_hit = (lines.len() == 1 && self.line_string.cursor() > row) || (lines.len() >= 2
            && self.multi_line_string.cursor() > row);
        let poly_hit = (polys.len() == 1 && self.polygon.cursor() > row) || (polys.len() >= 2
            && self.multi_polygon.cursor() > row);
        if point_hit || line_hit || poly_hit {
            return Err(GeoError::SchemaConflict);
        }
        proof {
            lemma_bucket_compose(old(self)@, flat_spec, complete_row);
        }
        // One warning per dropped member, then the bucket writes, then
        // the row advance.
        self.warn_unsupported(unsupported);
        proof {
            assert(self@ =~~= (EncModel {
                warnings: old(self)@.warnings + stamped(bk.3, old(self)@.row),
                ..old(self)@
            }));
        }
        self.write_point_bucket(points);
        self.write_line_bucket(lines);
        self.write_poly_bucket(polys);
        if complete_row {
            self.advance_row();
        }
        Ok(())
    }

    /// Write the point bucket against the current row: nothing for an
    /// empty bucket, the point builder for one member, the multi-point
    /// builder for several.
    fn write_point_bucket(&mut self, points: Vec<Coord>)
        requires
            old(self)@.wf(),
            old(self)@.row < usize::MAX,
            !old(self)@.finished,
            !plan_conflicts(old(self)@, point_bucket_plan(points.deep_view())),
        ensures
            final(self)@.wf(),
            final(self)@ == apply_plan(
                old(self)@,
                point_bucket_plan(points.deep_view()),
                false,
            ),
    {
        if points.len() == 1 {
            let c = points[0];
            proof {
                assert(point_bucket_plan(points.deep_view()) =~= route_simple(GeomV::Point(c)));
            }
            let _ = self.add_point(c, false);
        } else if points.len() >= 2 {
            let ghost pv = points.deep_view();
            proof {
                assert(point_bucket_plan(pv) =~= route_simple(GeomV::MultiPoint(pv)));
            }
            let _ = self.add_points(points, false);
        } else {
            proof {
                assert(old(self)@.warnings + stamped(Seq::<GeoError>::empty(), old(self)@.row)
                    =~= old(self)@.warnings);
                assert(self@ =~~= apply_plan(old(self)@, RoutePlan::empty(), false));
            }
        }
    }

    /// Write the line-string bucket against the current row.
    fn write_line_bucket(&mut self, lines: Vec<Vec<Coord>>)
        requires
            old(self)@.wf(),
            old(self)@.row < usize::MAX,
            !old(self)@.finished,
            !plan_conflicts(old(self)@, line_bucket_plan(lines.deep_view())),
        ensures
            final(self)@.wf(),
            final(self)@ == apply_plan(
                old(self)@,
                line_bucket_plan(lines.deep_view()),
                false,
            ),
    {
        let ghost lv = lines.deep_view();
        if lines.len() == 1 {
            let mut ls = lines;
            let l = match ls.pop() {
                Some(l) => l,
                None => {
                    proof {
                        assert(false);
                    }
                    vstd::pervasive::unreached()
                },
            };
            proof {
                assert(l.deep_view() == lv[0]);
                assert(line_bucket_plan(lv) =~= route_simple(GeomV::LineString(l.deep_view())));
            }
            let _ = self.add_line(l, false);
        } else if lines.len() >= 2 {
            proof {
                assert(line_bucket_plan(lv) =~= route_simple(GeomV::MultiLineString(lv)));
            }
            let _ = self.add_lines(lines, false);
        } else {
            proof {
                assert(old(self)@.warnings + stamped(Seq::<GeoError>::empty(), old(self)@.row)
                    =~= old(self)@.warnings);
                assert(self@ =~~= apply_plan(old(self)@, RoutePlan::empty(), false));
            }
        }
    }

    /// Write the polygon bucket against the current row.
    fn write_poly_bucket(&mut self, polys: Vec<PolygonGeom>)
        requires
            old(self)@.wf(),
            old(self)@.row < usize::MAX,
            !old(self)@.finished,
            !plan_conflicts(old(self)@, poly_bucket_plan(polys.deep_view())),
        ensures
            final(self)@.wf(),
            final(self)@ == apply_plan(
                old(self)@,
                poly_bucket_plan(polys.deep_view()),
                false,
            ),
    {
        let ghost qv = polys.deep_view();
        if polys.len() == 1 {
            let mut qs = polys;
            let q = match qs.pop() {
                Some(q) => q,
                None => {
                    proof {
                        assert(false);
                    }
                    vstd::pervasive::unreached()
                },
            };
            proof {
                assert(q.deep_view() == qv[0]);
                assert(poly_bucket_plan(qv) =~= route_simple(GeomV::Polygon(q.deep_view())));
            }
            let _ = self.add_polygon(q, false);
        } else if polys.len() >= 2 {
            proof {
                assert(poly_bucket_plan(qv) =~= route_simple(GeomV::MultiPolygon(qv)));
            }
            let _ = self.add_polygons(polys, false);
        } else {
            proof {
                assert(old(self)@.warnings + stamped(Seq::<GeoError>::empty(), old(self)@.row)
                    =~= old(self)@.warnings);
                assert(self@ =~~= apply_plan(old(self)@, RoutePlan::empty(), false));
            }
        }
    }

    /// Encode one input record: an optional geometry value plus the
    /// flag that says this call completes the current row. The routed
    /// kinds, warnings and row advance are exactly those of
    /// `route` and `apply_plan`; a kind already holding an entry for
    /// this row refuses the whole record with `SchemaConflict` and
    /// changes nothing.
    pub fn encode_value(&mut self, value: Option<Geometry>, complete_row: bool) -> (r: Result<
        (),
        GeoError,
    >)
        requires
            old(self)@.wf(),
            old(self)@.row < usize::MAX,
        ensures
            final(self)@.wf(),
            old(self)@.finished ==> r == Err::<(), GeoError>(GeoError::InvalidState)
                && final(self)@ == old(self)@,
            !old(self)@.finished && plan_conflicts(old(self)@, route(value.deep_view())) ==> r
                == Err::<(), GeoError>(GeoError::SchemaConflict) && final(self)@ == old(self)@,
            !old(self)@.finished && !plan_conflicts(old(self)@, route(value.deep_view())) ==> r
                == Ok::<(), GeoError>(()) && final(self)@ == apply_plan(
                old(self)@,
                route(value.deep_view()),
                complete_row,
            ),
    {
        if self.finished {
            return Err(GeoError::InvalidState);
        }
        match value {
            None => {
                if complete_row {
                    self.advance_row();
                }
                proof {
                    assert(old(self)@.warnings + stamped(
                        Seq::<GeoError>::empty(),
                        old(self)@.row,
                    ) =~= old(self)@.warnings);
                    assert(self@ =~~= apply_plan(
                        old(self)@,
                        RoutePlan::empty(),
                        complete_row,
                    ));
                }
                Ok(())
            },
            Some(g) => match g {
                Geometry::Point(c) => self.add_point(c, complete_row),
                Geometry::MultiPoint(v) => self.add_points(v, complete_row),
                Geometry::LineString(v) => self.add_line(v, complete_row),
                Geometry::MultiLineString(v) => self.add_lines(v, complete_row),
                Geometry::Polygon(p) => self.add_polygon(p, complete_row),
                Geometry::MultiPolygon(ps) => self.add_polygons(ps, complete_row),
                Geometry::Collection(gs) => {
                    proof {
                        crate::geom::lemma_vec_geoms_v(gs);
                    }
                    self.encode_collection(gs, complete_row)
                },
            },
        }
    }
}


/// `n` warnings for members of unsupported kind.
pub open spec fn unsup_warns(n: int) -> Seq<GeoError> {
    Seq::new(
        if n >= 0 {
            n as nat
        } else {
            0
        },
        |i: int| GeoError::UnsupportedGeometryKind,
    )
}

/// Separate a flat member list into the point, line-string and
/// polygon buckets, counting the members of other kinds.
fn bucket_members(flat: Vec<Geometry>) -> (r: (Vec<Coord>, Vec<Vec<Coord>>, Vec<PolygonGeom>, usize))
    ensures
        r.0.deep_view() == buckets(flat.deep_view()).0,
        r.1.deep_view() == buckets(flat.deep_view()).1,
        r.2.deep_view() == buckets(flat.deep_view()).2,
        buckets(flat.deep_view()).3 == unsup_warns(r.3 as int),
{
    let ghost flat_spec = flat.deep_view();
    let ghost bk = buckets(flat_spec);
    let n0 = flat.len();
    let ghost total = n0 as int;
    let mut points: Vec<Coord> = Vec::new();
    let mut lines: Vec<Vec<Coord>> = Vec::new();
    let mut polys: Vec<PolygonGeom> = Vec::new();
    let mut unsupported: usize = 0;
    let mut rest = flat;
    while rest.len() > 0
        invariant
            bk == buckets(flat_spec),
            bk.0 == points.deep_view() + buckets(rest.deep_view()).0,
            bk.1 == lines.deep_view() + buckets(rest.deep_view()).1,
            bk.2 == polys.deep_view() + buckets(rest.deep_view()).2,
            bk.3 =~= unsup_warns(unsupported as int) + buckets(rest.deep_view()).3,
            unsupported + rest@.len() <= total,
            0 <= total <= usize::MAX,
        decreases rest.len(),
    {
        let ghost restv = rest.deep_view();
        let ghost pv = points.deep_view();
        let ghost lv = lines.deep_view();
        let ghost qv = polys.deep_view();
        let m = rest.remove(0);
        proof {
            assert(rest.deep_view() =~= restv.drop_first());
            assert(geom_v(m) == restv.first());
        }
        match m {
            Geometry::Point(c) => {
                points.push(c);
                proof {
                    assert(points.deep_view() =~= pv.push(c));
                    assert(pv.push(c) + buckets(rest.deep_view()).0 =~= pv + (seq![c] + buckets(
                        rest.deep_view(),
                    ).0));
                }
            },
            Geometry::LineString(v) => {
                let ghost vv = v.deep_view();
                lines.push(v);
                proof {
                    assert(lines.deep_view() =~= lv.push(vv));
                    assert(lv.push(vv) + buckets(rest.deep_view()).1 =~= lv + (seq![vv] + buckets(
                        rest.deep_view(),
                    ).1));
                }
            },
            Geometry::Polygon(q) => {
                let ghost qvv = q.deep_view();
                polys.push(q);
                proof {
                    assert(polys.deep_view() =~= qv.push(qvv));
                    assert(qv.push(qvv) + buckets(rest.deep_view()).2 =~= qv + (seq![qvv]
                        + buckets(rest.deep_view()).2));
                }
            },
            _ => {
                unsupported = unsupported + 1;
                proof {
                    assert(unsup_warns(unsupported as int) =~= unsup_warns(unsupported as int - 1)
                        + seq![GeoError::UnsupportedGeometryKind]);
                    assert(bk.3 =~= unsup_warns(unsupported as int) + buckets(
                        rest.deep_view(),
                    ).3);
                }
            },
        }
    }
    proof {
        assert(rest.deep_view() =~= Seq::<GeomV>::empty());
        assert(bk.0 =~= points.deep_view());
        assert(bk.1 =~= lines.deep_view());
        assert(bk.2 =~= polys.deep_view());
        assert(bk.3 =~= unsup_warns(unsupported as int));
    }
    (points, lines, polys, unsupported)
}

impl Builders {
    /// Record `n` unsupported-kind warnings against the current row.
    fn warn_unsupported(&mut self, n: usize)
        ensures
            final(self)@ == (EncModel {
                warnings: old(self)@.warnings + stamped(unsup_warns(n as int), old(self)@.row),
                ..old(self)@
            }),
    {
        let mut w: usize = 0;
        while w < n
            invariant
                w <= n,
                self@ == (EncModel {
                    warnings: old(self)@.warnings + stamped(
                        unsup_warns(w as int),
                        old(self)@.row,
                    ),
                    ..old(self)@
                }),
            decreases n - w,
        {
            self.warn(GeoError::UnsupportedGeometryKind);
            w = w + 1;
            proof {
                assert(stamped(unsup_warns(w as int), old(self)@.row) =~= stamped(
                    unsup_warns(w as int - 1),
                    old(self)@.row,
                ) + stamped(seq![GeoError::UnsupportedGeometryKind], old(self)@.row));
                assert(self@ =~~= (EncModel {
                    warnings: old(self)@.warnings + stamped(
                        unsup_warns(w as int),
                        old(self)@.row,
                    ),
                    ..old(self)@
                }));
            }
        }
        proof {
            assert(self@ =~~= (EncModel {
                warnings: old(self)@.warnings + stamped(unsup_warns(n as int), old(self)@.row),
                ..old(self)@
            }));
        }
    }
}


/// Writing the three buckets one after the other, each against the
/// same row, then advancing, amounts to applying the combined member
/// plan at once.
#[verifier::spinoff_prover]
#[verifier::rlimit(60)]
proof fn lemma_bucket_compose(m0: EncModel, flat: Seq<GeomV>, complete: bool)
    requires
        flat.len() >= 2,
    ensures
        ({
            let bk = buckets(flat);
            let m1 = EncModel { warnings: m0.warnings + stamped(bk.3, m0.row), ..m0 };
            let m2 = apply_plan(m1, point_bucket_plan(bk.0), false);
            let m3 = apply_plan(m2, line_bucket_plan(bk.1), false);
            let m4 = apply_plan(m3, poly_bucket_plan(bk.2), false);
            let m5 = if complete {
                EncModel { row: m4.row + 1, ..m4 }
            } else {
                m4
            };
            m5 == apply_plan(m0, route_members(flat), complete)
        }),
{
    let bk = buckets(flat);
    let pp = point_bucket_plan(bk.0);
    let lp = line_bucket_plan(bk.1);
    let qp = poly_bucket_plan(bk.2);
    let m1 = EncModel { warnings: m0.warnings + stamped(bk.3, m0.row), ..m0 };
    let m2 = apply_plan(m1, pp, false);
    let m3 = apply_plan(m2, lp, false);
    let m4 = apply_plan(m3, qp, false);
    let m5 = if complete {
        EncModel { row: m4.row + 1, ..m4 }
    } else {
        m4
    };
    assert(pp.line_string is None && pp.multi_line_string is None && pp.polygon is None
        && pp.multi_polygon is None && pp.point == route_members(flat).point && pp.multi_point
        == route_members(flat).multi_point);
    assert(lp.point is None && lp.multi_point is None && lp.polygon is None && lp.multi_polygon
        is None && lp.line_string == route_members(flat).line_string && lp.multi_line_string
        == route_members(flat).multi_line_string);
    assert(qp.point is None && qp.multi_point is None && qp.line_string is None
        && qp.multi_line_string is None && qp.polygon == route_members(flat).polygon
        && qp.multi_polygon == route_members(flat).multi_polygon);
    assert(m5.warnings =~= m0.warnings + stamped(route_members(flat).warnings, m0.row)) by {
        assert(route_members(flat).warnings == bk.3 + pp.warnings + lp.warnings + qp.warnings);
        assert(stamped(bk.3 + pp.warnings + lp.warnings + qp.warnings, m0.row) =~= stamped(
            bk.3,
            m0.row,
        ) + stamped(pp.warnings, m0.row) + stamped(lp.warnings, m0.row) + stamped(
            qp.warnings,
            m0.row,
        ));
    }
    assert(m5 =~~= apply_plan(m0, route_members(flat), complete));
}

} // verus!
