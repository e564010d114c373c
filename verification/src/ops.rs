use vstd::prelude::*;

use crate::GeoError;
use crate::decode::{clone_coords, decoded_row};
use crate::encode::{coord_finite, coords_finite, coords_ok, poly_finite, rings_finite, rings_ok};
use crate::geoalg::{
    chaikin_line, chaikin_line_of, chaikin_polygon,
    chaikin_polygon_of, dist_line_string, dist_line_string_of,
    dist_multi_line_string, dist_multi_line_string_of, dist_multi_point, dist_multi_point_of,
    dist_multi_polygon, dist_multi_polygon_of, dist_point, dist_point_of, dist_polygon,
    dist_polygon_of, f64_le, isect_line_string, isect_line_string_of, isect_multi_line_string,
    isect_multi_line_string_of, isect_multi_point, isect_multi_point_of, isect_multi_polygon,
    isect_multi_polygon_of, isect_point, isect_point_of, isect_polygon, isect_polygon_of,
    le_bits_of,
};
use crate::geom::{Coord, GeomV, Geometry, PolyV, PolygonGeom, geom_v, lemma_vec_geoms_v};
use crate::result::{Builder, GeomOpResult, OpResV, ResColV, ResModel, ResultColumn, res_add, res_finish, res_len};
use crate::table::{ColumnarGeometryTable, TableModel};

verus! {

// ---------------------------------------------------------------------------
// Finiteness of whole geometries
// ---------------------------------------------------------------------------
/// Every coordinate of every polygon is finite.
pub open spec fn polys_finite(ps: Seq<PolyV>) -> bool {
    forall|i: int| 0 <= i < ps.len() ==> poly_finite(#[trigger] ps[i])
}

/// Every coordinate of the geometry is finite.
pub open spec fn geom_finite(g: GeomV) -> bool
    decreases g, 0int,
{
    match g {
        GeomV::Point(c) => coord_finite(c),
        GeomV::MultiPoint(s) => coords_finite(s),
        GeomV::LineString(s) => coords_finite(s),
        GeomV::MultiLineString(ss) => rings_finite(ss),
        GeomV::Polygon(p) => poly_finite(p),
        GeomV::MultiPolygon(ps) => polys_finite(ps),
        GeomV::Collection(ms) => geoms_finite(ms),
    }
}

/// Every coordinate of every geometry of the sequence is finite.
pub open spec fn geoms_finite(ms: Seq<GeomV>) -> bool
    decreases ms, 1int,
{
    if ms.len() == 0 {
        true
    } else {
        geoms_finite(ms.drop_last()) && geom_finite(ms.last())
    }
}

/// A sequence of geometries is finite exactly when each member is.
pub proof fn lemma_geoms_finite_iff(ms: Seq<GeomV>)
    ensures
        geoms_finite(ms) <==> (forall|i: int| 0 <= i < ms.len() ==> geom_finite(#[trigger] ms[i])),
    decreases ms.len(),
{
    if ms.len() > 0 {
        lemma_geoms_finite_iff(ms.drop_last());
        assert forall|i: int| 0 <= i < ms.len() - 1 implies ms.drop_last()[i] == ms[i] by {}
        if geoms_finite(ms) {
            assert forall|i: int| 0 <= i < ms.len() implies geom_finite(ms[i]) by {
                if i < ms.len() - 1 {
                    assert(geom_finite(ms.drop_last()[i]));
                } else {
                    assert(ms[i] == ms.last());
                }
            }
        }
        if forall|i: int| 0 <= i < ms.len() ==> geom_finite(#[trigger] ms[i]) {
            assert(geom_finite(ms.last()));
        }
    }
}

/// Whether every coordinate of the polygon is finite.
pub fn poly_ok(p: &PolygonGeom) -> (r: bool)
    ensures
        r == poly_finite(p.deep_view()),
{
    coords_ok(&p.exterior) && rings_ok(&p.interiors)
}

/// Whether every coordinate of every polygon is finite.
pub fn polys_ok(ps: &Vec<PolygonGeom>) -> (r: bool)
    ensures
        r == polys_finite(ps.deep_view()),
{
    let mut i: usize = 0;
    while i < ps.len()
        invariant
            i <= ps@.len(),
            forall|j: int| 0 <= j < i ==> poly_finite(#[trigger] ps.deep_view()[j]),
        decreases ps.len() - i,
    {
        if !poly_ok(&ps[i]) {
            proof {
                assert(!poly_finite(ps.deep_view()[i as int]));
            }
            return false;
        }
        i = i + 1;
    }
    true
}

/// Whether every coordinate of the geometry is finite.
pub fn geom_ok(g: &Geometry) -> (r: bool)
    ensures
        r == geom_finite(geom_v(*g)),
    decreases g,
{
    match g {
        Geometry::Point(c) => coords_ok_one(c),
        Geometry::MultiPoint(v) => coords_ok(v),
        Geometry::LineString(v) => coords_ok(v),
        Geometry::MultiLineString(v) => rings_ok(v),
        Geometry::Polygon(p) => poly_ok(p),
        Geometry::MultiPolygon(ps) => polys_ok(ps),
        Geometry::Collection(gs) => {
            let ghost msv = gs.deep_view();
            proof {
                lemma_vec_geoms_v(*gs);
                lemma_geoms_finite_iff(msv);
            }
            let mut i: usize = 0;
            while i < gs.len()
                invariant
                    *g == Geometry::Collection(*gs),
                    geom_v(*g) == GeomV::Collection(msv),
                    msv == gs.deep_view(),
                    i <= gs@.len(),
                    forall|j: int| 0 <= j < i ==> geom_finite(#[trigger] msv[j]),
                decreases gs.len() - i,
            {
                proof {
                    assert(*gs == g->Collection_0);
                    assert(decreases_to!(*g => g->Collection_0));
                    assert(decreases_to!(*gs => gs@));
                    assert(decreases_to!(gs@ => gs@[i as int]));
                    assert(msv[i as int] == geom_v(gs@[i as int]));
                }
                if !geom_ok(&gs[i]) {
                    proof {
                        assert(!geom_finite(msv[i as int]));
                        lemma_geoms_finite_iff(msv);
                    }
                    return false;
                }
                i = i + 1;
            }
            proof {
                lemma_vec_geoms_v(*gs);
                lemma_geoms_finite_iff(msv);
            }
            true
        },
    }
}

/// Whether both ordinates of the coordinate are finite.
fn coords_ok_one(c: &Coord) -> (r: bool)
    ensures
        r == coord_finite(*c),
{
    crate::is_finite_bits(c.x) && crate::is_finite_bits(c.y)
}

// ---------------------------------------------------------------------------
// Distance of a row geometry from a query point
// ---------------------------------------------------------------------------
/// The bit pattern whose float compares lower (the left one when the
/// comparison fails, as it does on a NaN).
pub open spec fn min_bits(a: u64, b: u64) -> u64 {
    if le_bits_of(a, b) {
        a
    } else {
        b
    }
}

/// The lesser of an optional running distance and an optional next
/// distance.
pub open spec fn combine_min(acc: Option<u64>, next: Option<u64>) -> Option<u64> {
    match (acc, next) {
        (None, d) => d,
        (d, None) => d,
        (Some(a), Some(b)) => Some(min_bits(a, b)),
    }
}

/// The distance from the query point to a geometry: each concrete
/// kind asks the algorithm library, a collection takes the least
/// member distance, an empty collection has none.
pub open spec fn dist_geom(g: GeomV, q: Coord) -> Option<u64>
    decreases g, 0int,
{
    match g {
        GeomV::Point(c) => Some(dist_point_of(q, c)),
        GeomV::MultiPoint(s) => Some(dist_multi_point_of(q, s)),
        GeomV::LineString(s) => Some(dist_line_string_of(q, s)),
        GeomV::MultiLineString(ss) => Some(dist_multi_line_string_of(q, ss)),
        GeomV::Polygon(p) => Some(dist_polygon_of(q, p)),
        GeomV::MultiPolygon(ps) => Some(dist_multi_polygon_of(q, ps)),
        GeomV::Collection(ms) => dist_geoms(ms, q),
    }
}

/// The least distance from the query point to any member.
pub open spec fn dist_geoms(ms: Seq<GeomV>, q: Coord) -> Option<u64>
    decreases ms, 1int,
{
    if ms.len() == 0 {
        None
    } else {
        combine_min(dist_geoms(ms.drop_last(), q), dist_geom(ms.last(), q))
    }
}

/// Compute `dist_geom` for one geometry.
fn distance_one(g: &Geometry, q: Coord) -> (d: Option<u64>)
    requires
        geom_finite(geom_v(*g)),
        coord_finite(q),
    ensures
        d == dist_geom(geom_v(*g), q),
    decreases g,
{
    match g {
        Geometry::Point(c) => Some(dist_point(q, *c)),
        Geometry::MultiPoint(v) => Some(dist_multi_point(q, v)),
        Geometry::LineString(v) => Some(dist_line_string(q, v)),
        Geometry::MultiLineString(v) => Some(dist_multi_line_string(q, v)),
        Geometry::Polygon(p) => Some(dist_polygon(q, p)),
        Geometry::MultiPolygon(ps) => Some(dist_multi_polygon(q, ps)),
        Geometry::Collection(gs) => {
            let ghost msv = gs.deep_view();
            proof {
                lemma_vec_geoms_v(*gs);
                lemma_geoms_finite_iff(msv);
            }
            let mut acc: Option<u64> = None;
            let mut i: usize = 0;
            while i < gs.len()
                invariant
                    *g == Geometry::Collection(*gs),
                    geom_v(*g) == GeomV::Collection(msv),
                    geoms_finite(msv),
                    coord_finite(q),
                    msv == gs.deep_view(),
                    i <= gs@.len(),
                    acc == dist_geoms(msv.take(i as int), q),
                decreases gs.len() - i,
            {
                proof {
                    lemma_geoms_finite_iff(msv);
                    assert(*gs == g->Collection_0);
                    assert(decreases_to!(*g => g->Collection_0));
                    assert(decreases_to!(*gs => gs@));
                    assert(decreases_to!(gs@ => gs@[i as int]));
                    assert(msv[i as int] == geom_v(gs@[i as int]));
                }
                let d = distance_one(&gs[i], q);
                acc = match (acc, d) {
                    (None, x) => x,
                    (x, None) => x,
                    (Some(a), Some(b)) => if f64_le(a, b) {
                        Some(a)
                    } else {
                        Some(b)
                    },
                };
                i = i + 1;
                proof {
                    assert(msv.take(i as int).drop_last() =~= msv.take(i as int - 1));
                    assert(msv.take(i as int).last() == msv[i as int - 1]);
                }
            }
            proof {
                lemma_vec_geoms_v(*gs);
                assert(msv.take(gs@.len() as int) =~= msv);
            }
            acc
        },
    }
}

// ---------------------------------------------------------------------------
// Intersection of a row geometry with a query point
// ---------------------------------------------------------------------------
/// Whether the query point intersects the geometry; a collection is
/// intersected when some member is.
pub open spec fn isect_geom(g: GeomV, q: Coord) -> bool
    decreases g, 0int,
{
    match g {
        GeomV::Point(c) => isect_point_of(q, c),
        GeomV::MultiPoint(s) => isect_multi_point_of(q, s),
        GeomV::LineString(s) => isect_line_string_of(q, s),
        GeomV::MultiLineString(ss) => isect_multi_line_string_of(q, ss),
        GeomV::Polygon(p) => isect_polygon_of(q, p),
        GeomV::MultiPolygon(ps) => isect_multi_polygon_of(q, ps),
        GeomV::Collection(ms) => isect_geoms(ms, q),
    }
}

/// Whether the query point intersects some member.
pub open spec fn isect_geoms(ms: Seq<GeomV>, q: Coord) -> bool
    decreases ms, 1int,
{
    if ms.len() == 0 {
        false
    } else {
        isect_geoms(ms.drop_last(), q) || isect_geom(ms.last(), q)
    }
}

/// Compute `isect_geom` for one geometry.
fn intersects_one(g: &Geometry, q: Coord) -> (r: bool)
    requires
        geom_finite(geom_v(*g)),
        coord_finite(q),
    ensures
        r == isect_geom(geom_v(*g), q),
    decreases g,
{
    match g {
        Geometry::Point(c) => isect_point(q, *c),
        Geometry::MultiPoint(v) => isect_multi_point(q, v),
        Geometry::LineString(v) => isect_line_string(q, v),
        Geometry::MultiLineString(v) => isect_multi_line_string(q, v),
        Geometry::Polygon(p) => isect_polygon(q, p),
        Geometry::MultiPolygon(ps) => isect_multi_polygon(q, ps),
        Geometry::Collection(gs) => {
            let ghost msv = gs.deep_view();
            proof {
                lemma_vec_geoms_v(*gs);
                lemma_geoms_finite_iff(msv);
            }
            let mut acc: bool = false;
            let mut i: usize = 0;
            while i < gs.len()
                invariant
                    *g == Geometry::Collection(*gs),
                    geom_v(*g) == GeomV::Collection(msv),
                    geoms_finite(msv),
                    coord_finite(q),
                    msv == gs.deep_view(),
                    i <= gs@.len(),
                    acc == isect_geoms(msv.take(i as int), q),
                decreases gs.len() - i,
            {
                proof {
                    lemma_geoms_finite_iff(msv);
                    assert(*gs == g->Collection_0);
                    assert(decreases_to!(*g => g->Collection_0));
                    assert(decreases_to!(*gs => gs@));
                    assert(decreases_to!(gs@ => gs@[i as int]));
                    assert(msv[i as int] == geom_v(gs@[i as int]));
                }
                let hit = intersects_one(&gs[i], q);
                acc = acc || hit;
                i = i + 1;
                proof {
                    assert(msv.take(i as int).drop_last() =~= msv.take(i as int - 1));
                    assert(msv.take(i as int).last() == msv[i as int - 1]);
                }
            }
            proof {
                lemma_vec_geoms_v(*gs);
                assert(msv.take(gs@.len() as int) =~= msv);
            }
            acc
        },
    }
}


// ---------------------------------------------------------------------------
// Chaikin smoothing of a whole table
// ---------------------------------------------------------------------------
/// What smoothing one decoded geometry yields: the four line-bearing
/// kinds are smoothed, points and multi-points pass through unchanged
/// (smoothing has nothing to round there), and a mixed collection has
/// no single output kind, so its row is null.
pub open spec fn chaikin_row(g: GeomV, n: int) -> OpResV {
    match g {
        GeomV::Point(c) => OpResV::Point(c),
        GeomV::MultiPoint(s) => OpResV::MultiPoint(s),
        GeomV::LineString(s) => OpResV::LineString(chaikin_line_of(s, n)),
        GeomV::MultiLineString(ss) => OpResV::MultiLineString(
            ss.map_values(|l: Seq<Coord>| chaikin_line_of(l, n)),
        ),
        GeomV::Polygon(p) => OpResV::Polygon(chaikin_polygon_of(p, n)),
        GeomV::MultiPolygon(ps) => OpResV::MultiPolygon(
            ps.map_values(|p: PolyV| chaikin_polygon_of(p, n)),
        ),
        GeomV::Collection(_) => OpResV::Null,
    }
}

/// The output of the smoothing operation for one row.
pub open spec fn chaikin_entry(t: TableModel, n: int, i: int) -> OpResV {
    match decoded_row(t, i) {
        None => OpResV::Null,
        Some(g) => chaikin_row(g, n),
    }
}

/// The result builder after feeding the first `upto` rows' outputs,
/// or the error met on the way.
pub open spec fn chaikin_fold(t: TableModel, n: int, upto: int) -> Result<ResModel, GeoError>
    decreases upto,
{
    if upto <= 0 {
        Ok(ResModel::Pending(0))
    } else {
        match chaikin_fold(t, n, upto - 1) {
            Err(e) => Err(e),
            Ok(m) => res_add(m, chaikin_entry(t, n, upto - 1)),
        }
    }
}

/// Once the fold has failed it stays failed.
proof fn lemma_chaikin_fold_err(t: TableModel, n: int, j: int, k: int)
    requires
        chaikin_fold(t, n, j) is Err,
        j <= k,
    ensures
        chaikin_fold(t, n, k) == chaikin_fold(t, n, j),
    decreases k - j,
{
    if j < k {
        lemma_chaikin_fold_err(t, n, j, k - 1);
    }
}

/// Adding one output grows the builder by one row.
proof fn lemma_res_add_len(m: ResModel, v: OpResV)
    requires
        res_len(m) >= 0,
    ensures
        res_add(m, v) matches Ok(m2) ==> res_len(m2) == res_len(m) + 1,
{
    match v {
        OpResV::Null => {
            match m {
                ResModel::Pending(k) => {},
                ResModel::Scalar(s) => {},
                ResModel::Point(s) => {},
                ResModel::MultiPoint(s) => {},
                ResModel::LineString(s) => {},
                ResModel::MultiLineString(s) => {},
                ResModel::Polygon(s) => {},
                ResModel::MultiPolygon(s) => {},
            }
        },
        OpResV::Float(x) => {
            match m {
                ResModel::Pending(k) => {},
                ResModel::Scalar(s) => {},
                _ => {},
            }
        },
        OpResV::Point(c) => {
            match m {
                ResModel::Pending(k) => {},
                ResModel::Point(s) => {},
                _ => {},
            }
        },
        OpResV::MultiPoint(p) => {
            match m {
                ResModel::Pending(k) => {},
                ResModel::MultiPoint(s) => {},
                _ => {},
            }
        },
        OpResV::Line(a, b) => {
            match m {
                ResModel::Pending(k) => {},
                ResModel::LineString(s) => {},
                _ => {},
            }
        },
        OpResV::LineString(l) => {
            match m {
                ResModel::Pending(k) => {},
                ResModel::LineString(s) => {},
                _ => {},
            }
        },
        OpResV::MultiLineString(l) => {
            match m {
                ResModel::Pending(k) => {},
                ResModel::MultiLineString(s) => {},
                _ => {},
            }
        },
        OpResV::Polygon(p) => {
            match m {
                ResModel::Pending(k) => {},
                ResModel::Polygon(s) => {},
                _ => {},
            }
        },
        OpResV::MultiPolygon(p) => {
            match m {
                ResModel::Pending(k) => {},
                ResModel::MultiPolygon(s) => {},
                _ => {},
            }
        },
    }
}

/// Smooth each line string of a multi line string; the algorithm
/// library smooths the members of a multi independently.
fn chaikin_each_line(v: &Vec<Vec<Coord>>, n: usize) -> (r: Vec<Vec<Coord>>)
    ensures
        r.deep_view() == v.deep_view().map_values(
            |l: Seq<Coord>| chaikin_line_of(l, n as int),
        ),
{
    let mut out: Vec<Vec<Coord>> = Vec::new();
    let mut i: usize = 0;
    while i < v.len()
        invariant
            i <= v@.len(),
            out.deep_view().len() == i,
            forall|j: int|
                0 <= j < i ==> out.deep_view()[j] == chaikin_line_of(
                    #[trigger] v.deep_view()[j],
                    n as int,
                ),
        decreases v.len() - i,
    {
        let ghost before = out.deep_view();
        let sm = chaikin_line(&v[i], n);
        out.push(sm);
        i = i + 1;
        proof {
            assert(out.deep_view() =~= before.push(sm.deep_view()));
        }
    }
    proof {
        assert(out.deep_view() =~= v.deep_view().map_values(
            |l: Seq<Coord>| chaikin_line_of(l, n as int),
        ));
    }
    out
}

/// Smooth each polygon of a multi polygon.
fn chaikin_each_polygon(ps: &Vec<PolygonGeom>, n: usize) -> (r: Vec<PolygonGeom>)
    ensures
        r.deep_view() == ps.deep_view().map_values(
            |p: PolyV| chaikin_polygon_of(p, n as int),
        ),
{
    let mut out: Vec<PolygonGeom> = Vec::new();
    let mut i: usize = 0;
    while i < ps.len()
        invariant
            i <= ps@.len(),
            out.deep_view().len() == i,
            forall|j: int|
                0 <= j < i ==> out.deep_view()[j] == chaikin_polygon_of(
                    #[trigger] ps.deep_view()[j],
                    n as int,
                ),
        decreases ps.len() - i,
    {
        let ghost before = out.deep_view();
        let sm = chaikin_polygon(&ps[i], n);
        out.push(sm);
        i = i + 1;
        proof {
            assert(out.deep_view() =~= before.push(sm.deep_view()));
        }
    }
    proof {
        assert(out.deep_view() =~= ps.deep_view().map_values(
            |p: PolyV| chaikin_polygon_of(p, n as int),
        ));
    }
    out
}

/// Smooth one decoded geometry.
fn chaikin_one(g: &Geometry, n: usize) -> (r: GeomOpResult)
    ensures
        r.deep_view() == chaikin_row(geom_v(*g), n as int),
{
    match g {
        Geometry::Point(c) => GeomOpResult::Point(*c),
        Geometry::MultiPoint(v) => GeomOpResult::MultiPoint(clone_coords(v)),
        Geometry::LineString(v) => GeomOpResult::LineString(chaikin_line(v, n)),
        Geometry::MultiLineString(v) => GeomOpResult::MultiLineString(chaikin_each_line(v, n)),
        Geometry::Polygon(p) => GeomOpResult::Polygon(chaikin_polygon(p, n)),
        Geometry::MultiPolygon(ps) => GeomOpResult::MultiPolygon(chaikin_each_polygon(ps, n)),
        Geometry::Collection(_) => GeomOpResult::Null,
    }
}

/// Smooth every row of the table with `n_iterations` rounds of
/// Chaikin's corner cutting, one output per row, nulls for empty
/// rows. Fails with `IncompatibleResultType` exactly where the fold
/// does: when two rows decode to geometries of different output
/// layouts.
pub fn chaikin_smoothing(table: &ColumnarGeometryTable, n_iterations: usize) -> (r: Result<
    ResultColumn,
    GeoError,
>)
    requires
        table@.wf(),
    ensures
        chaikin_fold(table@, n_iterations as int, table@.row_count) matches Ok(m) ==> r is Ok
            && r->Ok_0@ == res_finish(m),
        chaikin_fold(table@, n_iterations as int, table@.row_count) matches Err(e) ==> r
            == Err::<ResultColumn, GeoError>(e),
{
    let rows = table.row_count();
    let mut b = Builder::new();
    let mut i: usize = 0;
    while i < rows
        invariant
            table@.wf(),
            rows == table@.row_count,
            i <= rows,
            chaikin_fold(table@, n_iterations as int, i as int) == Ok::<ResModel, GeoError>(b@),
            res_len(b@) == i,
        decreases rows - i,
    {
        let g = table.get_row(i);
        let item = match &g {
            Some(gg) => chaikin_one(gg, n_iterations),
            None => GeomOpResult::Null,
        };
        proof {
            assert(item.deep_view() == chaikin_entry(table@, n_iterations as int, i as int));
            lemma_res_add_len(b@, item.deep_view());
        }
        match b.add(item) {
            Ok(()) => {},
            Err(e) => {
                proof {
                    lemma_chaikin_fold_err(
                        table@,
                        n_iterations as int,
                        i as int + 1,
                        rows as int,
                    );
                }
                return Err(e);
            },
        }
        i = i + 1;
    }
    Ok(b.finish())
}

// ---------------------------------------------------------------------------
// Distance of every row from a query point
// ---------------------------------------------------------------------------
/// The distance output for one row: nothing for an empty row, nothing
/// for a geometry with a non-finite coordinate, the least distance
/// otherwise.
pub open spec fn distance_entry(t: TableModel, q: Coord, i: int) -> Option<u64> {
    match decoded_row(t, i) {
        None => None,
        Some(g) => if !geom_finite(g) {
            None
        } else {
            dist_geom(g, q)
        },
    }
}

/// The first `n` distance outputs.
pub open spec fn distance_entries_upto(t: TableModel, q: Coord, n: int) -> Seq<Option<u64>> {
    Seq::new(
        if n >= 0 {
            n as nat
        } else {
            0
        },
        |i: int| distance_entry(t, q, i),
    )
}

/// The distance column of a table: a scalar column with one optional
/// entry per row; with no populated entry at all (in particular for a
/// non-finite query point) the column has no layout, only nulls.
pub open spec fn distance_col(t: TableModel, q: Coord) -> ResColV {
    if !coord_finite(q) {
        ResColV::Null(t.row_count)
    } else if forall|i: int| 0 <= i < t.row_count ==> distance_entry(t, q, i) is None {
        ResColV::Null(t.row_count)
    } else {
        ResColV::Scalar(distance_entries_upto(t, q, t.row_count))
    }
}

/// The Euclidean distance from the query point `(x, y)` (float bit
/// patterns) to every row's geometry; a collection row takes its
/// least member distance.
pub fn distance(table: &ColumnarGeometryTable, x: u64, y: u64) -> (r: ResultColumn)
    requires
        table@.wf(),
    ensures
        r@ == distance_col(table@, Coord { x, y }),
{
    let q = Coord { x, y };
    let rows = table.row_count();
    if !crate::is_finite_bits(x) || !crate::is_finite_bits(y) {
        return ResultColumn::Null(rows);
    }
    let mut b = Builder::new();
    let mut i: usize = 0;
    while i < rows
        invariant
            table@.wf(),
            coord_finite(q),
            rows == table@.row_count,
            i <= rows,
            res_len(b@) == i,
            b@ == ResModel::Pending(i as int) || b@ == ResModel::Scalar(
                distance_entries_upto(table@, q, i as int),
            ),
            b@ is Pending ==> forall|j: int|
                0 <= j < i ==> distance_entry(table@, q, j) is None,
            b@ is Scalar ==> exists|j: int| 0 <= j < i && distance_entry(table@, q, j) is Some,
        decreases rows - i,
    {
        let g = table.get_row(i);
        let entry: Option<u64> = match &g {
            Some(gg) => if geom_ok(gg) {
                distance_one(gg, q)
            } else {
                None
            },
            None => None,
        };
        proof {
            assert(entry == distance_entry(table@, q, i as int));
            lemma_res_add_len(b@, match entry {
                Some(d) => OpResV::Float(d),
                None => OpResV::Null,
            });
        }
        let ghost before = b@;
        let step = match entry {
            Some(d) => b.add_scalar(d),
            None => b.add_null(),
        };
        match step {
            Ok(()) => {},
            Err(_) => {
                proof {
                    assert(false);
                }
                return vstd::pervasive::unreached();
            },
        }
        i = i + 1;
        proof {
            if b@ is Scalar {
                assert(b@ =~~= ResModel::Scalar(distance_entries_upto(table@, q, i as int)));
            }
        }
    }
    let col = b.finish();
    proof {
        if col@ is Scalar {
            assert(col@ =~~= distance_col(table@, q));
        }
    }
    col
}

// ---------------------------------------------------------------------------
// Intersection of every row with a query point
// ---------------------------------------------------------------------------
/// The intersection output for one row: nothing for an empty row or a
/// non-finite geometry, else whether the query point meets the row's
/// geometry.
pub open spec fn intersects_entry(t: TableModel, q: Coord, i: int) -> Option<bool> {
    match decoded_row(t, i) {
        None => None,
        Some(g) => if !geom_finite(g) {
            None
        } else {
            Some(isect_geom(g, q))
        },
    }
}

/// The intersection column: one optional flag per row; a non-finite
/// query point meets nothing, so every entry is null then.
pub open spec fn intersects_col(t: TableModel, q: Coord) -> Seq<Option<bool>> {
    Seq::new(
        if t.row_count >= 0 {
            t.row_count as nat
        } else {
            0
        },
        |i: int| if coord_finite(q) {
            intersects_entry(t, q, i)
        } else {
            None
        },
    )
}

/// Whether the query point `(x, y)` (float bit patterns) intersects
/// each row's geometry; a collection row is intersected when some
/// member is.
pub fn intersects(table: &ColumnarGeometryTable, x: u64, y: u64) -> (r: Vec<Option<bool>>)
    requires
        table@.wf(),
    ensures
        r@ == intersects_col(table@, Coord { x, y }),
{
    let q = Coord { x, y };
    let rows = table.row_count();
    let q_ok = crate::is_finite_bits(x) && crate::is_finite_bits(y);
    let mut out: Vec<Option<bool>> = Vec::new();
    let mut i: usize = 0;
    while i < rows
        invariant
            table@.wf(),
            q_ok == coord_finite(q),
            rows == table@.row_count,
            i <= rows,
            out@.len() == i,
            forall|j: int| 0 <= j < i ==> out@[j] == intersects_col(table@, q)[j],
        decreases rows - i,
    {
        let entry: Option<bool> = if !q_ok {
            None
        } else {
            let g = table.get_row(i);
            match &g {
                Some(gg) => if geom_ok(gg) {
                    Some(intersects_one(gg, q))
                } else {
                    None
                },
                None => None,
            }
        };
        out.push(entry);
        i = i + 1;
    }
    proof {
        assert(out@ =~= intersects_col(table@, q));
    }
    out
}


// ---------------------------------------------------------------------------
// Running an arbitrary per-row operation
// ---------------------------------------------------------------------------
/// The result builder after feeding a sequence of per-row outputs, or
/// the error met on the way.
pub open spec fn res_fold(rs: Seq<OpResV>) -> Result<ResModel, GeoError>
    decreases rs.len(),
{
    if rs.len() == 0 {
        Ok(ResModel::Pending(0))
    } else {
        match res_fold(rs.drop_last()) {
            Err(e) => Err(e),
            Ok(m) => res_add(m, rs.last()),
        }
    }
}

/// The builder refuses an output only as a layout mismatch.
proof fn lemma_res_add_err(m: ResModel, v: OpResV)
    ensures
        res_add(m, v) matches Err(e) ==> e == GeoError::IncompatibleResultType,
{
    match v {
        OpResV::Null => {},
        OpResV::Float(x) => {},
        OpResV::Point(c) => {},
        OpResV::MultiPoint(p) => {},
        OpResV::Line(a, b) => {},
        OpResV::LineString(l) => {},
        OpResV::MultiLineString(l) => {},
        OpResV::Polygon(p) => {},
        OpResV::MultiPolygon(p) => {},
    }
}

/// What one entry of the per-row output sequence says: an empty row
/// contributed a null, and a populated row's entry is an output the
/// operation allows for some geometry with that row's decoded value.
pub open spec fn row_op_ok<F: Fn(&Geometry) -> GeomOpResult>(
    t: TableModel,
    i: int,
    v: OpResV,
    f: F,
) -> bool {
    match decoded_row(t, i) {
        None => v == OpResV::Null,
        Some(gv) => exists|g: Geometry, out: GeomOpResult|
            geom_v(g) == gv && #[trigger] call_ensures(f, (&g,), out) && out.deep_view() == v,
    }
}

/// Decode every row, hand each decoded geometry to `f`, and gather
/// the outputs into one result column: nulls for empty rows, `f`'s
/// output for the rest, refused only when two outputs disagree on the
/// column's layout. A failure carries a witness: a prefix of allowed
/// per-row outputs that the output builder refuses; and a table with
/// no populated row feeds only nulls, which every layout accepts, so
/// it always succeeds.
pub fn run_op_on_struct<F: Fn(&Geometry) -> GeomOpResult>(
    table: &ColumnarGeometryTable,
    f: F,
) -> (r: Result<ResultColumn, GeoError>)
    requires
        table@.wf(),
        forall|g: Geometry| #[trigger] call_requires(f, (&g,)),
    ensures
        r matches Err(e) ==> e == GeoError::IncompatibleResultType && exists|rs: Seq<OpResV>|
            {
                &&& rs.len() <= table@.row_count
                &&& res_fold(rs) is Err
                &&& forall|i: int| 0 <= i < rs.len() ==> row_op_ok(table@, i, #[trigger] rs[i], f)
            },
        (forall|i: int| 0 <= i < table@.row_count ==> #[trigger] decoded_row(table@, i)
            is None) ==> r is Ok,
        r matches Ok(col) ==> exists|rs: Seq<OpResV>|
            {
                &&& rs.len() == table@.row_count
                &&& res_fold(rs) matches Ok(m) && col@ == res_finish(m)
                &&& forall|i: int| 0 <= i < rs.len() ==> row_op_ok(table@, i, #[trigger] rs[i], f)
            },
{
    let rows = table.row_count();
    let mut b = Builder::new();
    let ghost mut rs: Seq<OpResV> = Seq::empty();
    let mut i: usize = 0;
    while i < rows
        invariant
            table@.wf(),
            rows == table@.row_count,
            forall|g: Geometry| #[trigger] call_requires(f, (&g,)),
            i <= rows,
            rs.len() == i as int,
            res_fold(rs) == Ok::<ResModel, GeoError>(b@),
            res_len(b@) == i as int,
            forall|j: int| 0 <= j < i ==> row_op_ok(table@, j, #[trigger] rs[j], f),
        decreases rows - i,
    {
        let g = table.get_row(i);
        let item: GeomOpResult = match &g {
            Some(gg) => f(gg),
            None => GeomOpResult::Null,
        };
        proof {
            if g is Some {
                let gown = g->0;
                assert(geom_v(gown) == decoded_row(table@, i as int)->0);
            } else {
                assert(decoded_row(table@, i as int) is None);
                assert(item.deep_view() == OpResV::Null);
            }
            assert(row_op_ok(table@, i as int, item.deep_view(), f));
            lemma_res_add_len(b@, item.deep_view());
            lemma_res_add_err(b@, item.deep_view());
        }
        let ghost before_rs = rs;
        match b.add(item) {
            Ok(()) => {},
            Err(e) => {
                proof {
                    // A null output is accepted by every layout, so a
                    // refusal means some row decoded to a geometry.
                    if decoded_row(table@, i as int) is None {
                        assert(item.deep_view() == OpResV::Null);
                        assert(res_add(b@, OpResV::Null) is Ok);
                        assert(false);
                    }
                    // The refused prefix is the witness.
                    let rs_err = rs.push(item.deep_view());
                    assert(rs_err.drop_last() =~= rs);
                    assert(rs_err.last() == item.deep_view());
                    assert(res_fold(rs_err) is Err);
                    assert(rs_err.len() <= table@.row_count);
                    assert forall|j: int| 0 <= j < rs_err.len() implies row_op_ok(
                        table@,
                        j,
                        #[trigger] rs_err[j],
                        f,
                    ) by {
                        if j < i as int {
                            assert(rs_err[j] == rs[j]);
                            assert(row_op_ok(table@, j, rs[j], f));
                        } else {
                            assert(rs_err[j] == item.deep_view());
                        }
                    }
                    assert(exists|rs2: Seq<OpResV>|
                        {
                            &&& rs2.len() <= table@.row_count
                            &&& res_fold(rs2) is Err
                            &&& forall|j: int|
                                0 <= j < rs2.len() ==> row_op_ok(table@, j, #[trigger] rs2[j], f)
                        }) by {
                        assert({
                            &&& rs_err.len() <= table@.row_count
                            &&& res_fold(rs_err) is Err
                            &&& forall|j: int|
                                0 <= j < rs_err.len() ==> row_op_ok(
                                    table@,
                                    j,
                                    #[trigger] rs_err[j],
                                    f,
                                )
                        });
                    }
                }
                return Err(e);
            },
        }
        proof {
            rs = rs.push(item.deep_view());
            assert(rs.drop_last() =~= before_rs);
            assert(rs.last() == item.deep_view());
        }
        i = i + 1;
    }
    let col = b.finish();
    proof {
        assert({
            &&& rs.len() == table@.row_count
            &&& res_fold(rs) matches Ok(m) && col@ == res_finish(m)
            &&& forall|i: int| 0 <= i < rs.len() ==> row_op_ok(table@, i, #[trigger] rs[i], f)
        });
    }
    Ok(col)
}

} // verus!
