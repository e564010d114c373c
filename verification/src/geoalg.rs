use vstd::prelude::*;

use crate::encode::{coord_finite, coords_finite, poly_finite, rings_finite};
use crate::geom::{Coord, PolyV, PolygonGeom};

verus! {

/// The winding order that the geometry algorithm library assigns to a
/// closed ring with the given coordinate bit patterns:
/// `Some(true)` for counter-clockwise, `Some(false)` for clockwise,
/// `None` for a ring that is open, too short, or degenerate.
pub uninterp spec fn ring_winding_ccw(ring: Seq<Coord>) -> Option<bool>;

/// Relies on geo's `Winding::winding_order` for `LineString`, which
/// determines the orientation of a closed ring from the robust
/// orientation of the first occurrence of the lexicographically least
/// vertex and its two cyclic neighbours. The result depends on the
/// coordinates alone. The ring must be finite: geo's vertex
/// comparison does not accept NaN coordinates. Nothing is claimed
/// about the reversed ring: in a self-touching ring whose least
/// vertex occurs more than once, reversal moves the examined
/// occurrence, so the winding need not flip.
#[verifier::external_body]
pub(crate) fn ring_winding(ring: &Vec<Coord>) -> (r: Option<bool>)
    requires
        coords_finite(ring.deep_view()),
    ensures
        r == ring_winding_ccw(ring.deep_view()),
{
    let ls: geo::LineString = geo::LineString::new(
        ring.iter().map(
            |c| geo::Coord { x: bytemuck::cast(c.x), y: bytemuck::cast(c.y) },
        ).collect(),
    );
    match geo::Winding::winding_order(&ls) {
        Some(geo::winding_order::WindingOrder::CounterClockwise) => Some(true),
        Some(geo::winding_order::WindingOrder::Clockwise) => Some(false),
        None => None,
    }
}

// ---------------------------------------------------------------------------
// Chaikin smoothing
// ---------------------------------------------------------------------------
/// The line string that `n` rounds of Chaikin smoothing make of the
/// given one.
pub uninterp spec fn chaikin_line_of(ls: Seq<Coord>, n: int) -> Seq<Coord>;

/// The polygon that `n` rounds of Chaikin smoothing make of the given
/// one.
pub uninterp spec fn chaikin_polygon_of(p: PolyV, n: int) -> PolyV;

/// Relies on geo's `ChaikinSmoothing` for `LineString`: the result is
/// a pure function of the coordinates and the iteration count.
#[verifier::external_body]
pub(crate) fn chaikin_line(ls: &Vec<Coord>, n: usize) -> (r: Vec<Coord>)
    ensures
        r.deep_view() == chaikin_line_of(ls.deep_view(), n as int),
{
    let conv = |c: &Coord| geo::Coord { x: bytemuck::cast(c.x), y: bytemuck::cast(c.y) };
    let g: geo::LineString = geo::LineString::new(ls.iter().map(conv).collect());
    let sm = geo::ChaikinSmoothing::chaikin_smoothing(&g, n);
    sm.0.iter().map(|c| Coord { x: c.x.to_bits(), y: c.y.to_bits() }).collect()
}

/// Relies on geo's `ChaikinSmoothing` for `Polygon`: the exterior and
/// each interior ring are smoothed independently; geo closes each
/// smoothed ring.
#[verifier::external_body]
pub(crate) fn chaikin_polygon(p: &PolygonGeom, n: usize) -> (r: PolygonGeom)
    ensures
        r.deep_view() == chaikin_polygon_of(p.deep_view(), n as int),
{
    let ls = |l: &Vec<Coord>| geo::LineString::new(
        l.iter().map(|c| geo::Coord { x: bytemuck::cast(c.x), y: bytemuck::cast(c.y) }).collect(),
    );
    let sm = geo::ChaikinSmoothing::chaikin_smoothing(
        &geo::Polygon::new(ls(&p.exterior), p.interiors.iter().map(ls).collect()),
        n,
    );
    let back = |l: &geo::LineString| l.0.iter().map(
        |c| Coord { x: c.x.to_bits(), y: c.y.to_bits() },
    ).collect();
    PolygonGeom { exterior: back(sm.exterior()), interiors: sm.interiors().iter().map(back).collect() }
}

// ---------------------------------------------------------------------------
// Euclidean distance from a query point
// ---------------------------------------------------------------------------
/// The Euclidean distance (as a float bit pattern) between two points.
pub uninterp spec fn dist_point_of(q: Coord, c: Coord) -> u64;

/// The Euclidean distance between a point and a multi-point.
pub uninterp spec fn dist_multi_point_of(q: Coord, s: Seq<Coord>) -> u64;

/// The Euclidean distance between a point and a line string.
pub uninterp spec fn dist_line_string_of(q: Coord, s: Seq<Coord>) -> u64;

/// The Euclidean distance between a point and a multi line string.
pub uninterp spec fn dist_multi_line_string_of(q: Coord, ss: Seq<Seq<Coord>>) -> u64;

/// The Euclidean distance between a point and a polygon.
pub uninterp spec fn dist_polygon_of(q: Coord, p: PolyV) -> u64;

/// The Euclidean distance between a point and a multi polygon.
pub uninterp spec fn dist_multi_polygon_of(q: Coord, ps: Seq<PolyV>) -> u64;

/// Relies on geo's Euclidean `Distance` for point pairs. Finite
/// coordinates only: geo's comparisons do not accept NaN.
#[verifier::external_body]
pub(crate) fn dist_point(q: Coord, c: Coord) -> (r: u64)
    requires
        coord_finite(q),
        coord_finite(c),
    ensures
        r == dist_point_of(q, c),
{
    let a: geo::Point = geo::Point::new(bytemuck::cast(q.x), bytemuck::cast(q.y));
    let b: geo::Point = geo::Point::new(bytemuck::cast(c.x), bytemuck::cast(c.y));
    bytemuck::cast(geo::Distance::distance(&geo::Euclidean, &a, &b))
}

/// Relies on geo's Euclidean `Distance` between a point and a
/// multi-point: the least member distance, the largest float for an
/// empty multi-point.
#[verifier::external_body]
pub(crate) fn dist_multi_point(q: Coord, s: &Vec<Coord>) -> (r: u64)
    requires
        coord_finite(q),
        coords_finite(s.deep_view()),
    ensures
        r == dist_multi_point_of(q, s.deep_view()),
{
    let a: geo::Point = geo::Point::new(bytemuck::cast(q.x), bytemuck::cast(q.y));
    let conv = |c: &Coord| geo::Point::new(bytemuck::cast(c.x), bytemuck::cast(c.y));
    let b: geo::MultiPoint = geo::MultiPoint::new(s.iter().map(conv).collect());
    bytemuck::cast(geo::Distance::distance(&geo::Euclidean, &a, &b))
}

/// Relies on geo's Euclidean `Distance` between a point and a line
/// string.
#[verifier::external_body]
pub(crate) fn dist_line_string(q: Coord, s: &Vec<Coord>) -> (r: u64)
    requires
        coord_finite(q),
        coords_finite(s.deep_view()),
    ensures
        r == dist_line_string_of(q, s.deep_view()),
{
    let a: geo::Point = geo::Point::new(bytemuck::cast(q.x), bytemuck::cast(q.y));
    let conv = |c: &Coord| geo::Coord { x: bytemuck::cast(c.x), y: bytemuck::cast(c.y) };
    let b: geo::LineString = geo::LineString::new(s.iter().map(conv).collect());
    bytemuck::cast(geo::Distance::distance(&geo::Euclidean, &a, &b))
}

/// Relies on geo's Euclidean `Distance` between a point and a multi
/// line string.
#[verifier::external_body]
pub(crate) fn dist_multi_line_string(q: Coord, ss: &Vec<Vec<Coord>>) -> (r: u64)
    requires
        coord_finite(q),
        rings_finite(ss.deep_view()),
    ensures
        r == dist_multi_line_string_of(q, ss.deep_view()),
{
    let a: geo::Point = geo::Point::new(bytemuck::cast(q.x), bytemuck::cast(q.y));
    let conv = |c: &Coord| geo::Coord { x: bytemuck::cast(c.x), y: bytemuck::cast(c.y) };
    let ls = |l: &Vec<Coord>| geo::LineString::new(l.iter().map(conv).collect());
    let b: geo::MultiLineString = geo::MultiLineString::new(ss.iter().map(ls).collect());
    bytemuck::cast(geo::Distance::distance(&geo::Euclidean, &a, &b))
}

/// Relies on geo's Euclidean `Distance` between a point and a
/// polygon: zero inside, least boundary distance outside.
#[verifier::external_body]
pub(crate) fn dist_polygon(q: Coord, p: &PolygonGeom) -> (r: u64)
    requires
        coord_finite(q),
        poly_finite(p.deep_view()),
    ensures
        r == dist_polygon_of(q, p.deep_view()),
{
    let a: geo::Point = geo::Point::new(bytemuck::cast(q.x), bytemuck::cast(q.y));
    let conv = |c: &Coord| geo::Coord { x: bytemuck::cast(c.x), y: bytemuck::cast(c.y) };
    let ls = |l: &Vec<Coord>| geo::LineString::new(l.iter().map(conv).collect());
    let b: geo::Polygon = geo::Polygon::new(ls(&p.exterior), p.interiors.iter().map(ls).collect());
    bytemuck::cast(geo::Distance::distance(&geo::Euclidean, &a, &b))
}

/// Relies on geo's Euclidean `Distance` between a point and a multi
/// polygon.
#[verifier::external_body]
pub(crate) fn dist_multi_polygon(q: Coord, ps: &Vec<PolygonGeom>) -> (r: u64)
    requires
        coord_finite(q),
        forall|i: int| 0 <= i < ps.deep_view().len() ==> #[trigger] poly_finite(ps.deep_view()[i]),
    ensures
        r == dist_multi_polygon_of(q, ps.deep_view()),
{
    let a: geo::Point = geo::Point::new(bytemuck::cast(q.x), bytemuck::cast(q.y));
    let conv = |c: &Coord| geo::Coord { x: bytemuck::cast(c.x), y: bytemuck::cast(c.y) };
    let ls = |l: &Vec<Coord>| geo::LineString::new(l.iter().map(conv).collect());
    let gp = |p: &PolygonGeom| geo::Polygon::new(ls(&p.exterior), p.interiors.iter().map(ls).collect());
    let b: geo::MultiPolygon = geo::MultiPolygon::new(ps.iter().map(gp).collect());
    bytemuck::cast(geo::Distance::distance(&geo::Euclidean, &a, &b))
}

// ---------------------------------------------------------------------------
// Intersection with a query point
// ---------------------------------------------------------------------------
/// Whether a point intersects another point.
pub uninterp spec fn isect_point_of(q: Coord, c: Coord) -> bool;

/// Whether a point intersects a multi-point.
pub uninterp spec fn isect_multi_point_of(q: Coord, s: Seq<Coord>) -> bool;

/// Whether a point intersects a line string.
pub uninterp spec fn isect_line_string_of(q: Coord, s: Seq<Coord>) -> bool;

/// Whether a point intersects a multi line string.
pub uninterp spec fn isect_multi_line_string_of(q: Coord, ss: Seq<Seq<Coord>>) -> bool;

/// Whether a point intersects a polygon.
pub uninterp spec fn isect_polygon_of(q: Coord, p: PolyV) -> bool;

/// Whether a point intersects a multi polygon.
pub uninterp spec fn isect_multi_polygon_of(q: Coord, ps: Seq<PolyV>) -> bool;

/// Relies on geo's `Intersects` for point pairs: equality of
/// coordinates.
#[verifier::external_body]
pub(crate) fn isect_point(q: Coord, c: Coord) -> (r: bool)
    requires
        coord_finite(q),
        coord_finite(c),
    ensures
        r == isect_point_of(q, c),
{
    let a: geo::Point = geo::Point::new(bytemuck::cast(q.x), bytemuck::cast(q.y));
    let b: geo::Point = geo::Point::new(bytemuck::cast(c.x), bytemuck::cast(c.y));
    geo::Intersects::intersects(&a, &b)
}

/// Relies on geo's `Intersects` between a point and a multi-point:
/// some member equals the point.
#[verifier::external_body]
pub(crate) fn isect_multi_point(q: Coord, s: &Vec<Coord>) -> (r: bool)
    requires
        coord_finite(q),
        coords_finite(s.deep_view()),
    ensures
        r == isect_multi_point_of(q, s.deep_view()),
{
    let a: geo::Point = geo::Point::new(bytemuck::cast(q.x), bytemuck::cast(q.y));
    let conv = |c: &Coord| geo::Point::new(bytemuck::cast(c.x), bytemuck::cast(c.y));
    let b: geo::MultiPoint = geo::MultiPoint::new(s.iter().map(conv).collect());
    geo::Intersects::intersects(&a, &b)
}

/// Relies on geo's `Intersects` between a point and a line string:
/// the point lies on some segment.
#[verifier::external_body]
pub(crate) fn isect_line_string(q: Coord, s: &Vec<Coord>) -> (r: bool)
    requires
        coord_finite(q),
        coords_finite(s.deep_view()),
    ensures
        r == isect_line_string_of(q, s.deep_view()),
{
    let a: geo::Point = geo::Point::new(bytemuck::cast(q.x), bytemuck::cast(q.y));
    let conv = |c: &Coord| geo::Coord { x: bytemuck::cast(c.x), y: bytemuck::cast(c.y) };
    let b: geo::LineString = geo::LineString::new(s.iter().map(conv).collect());
    geo::Intersects::intersects(&a, &b)
}

/// Relies on geo's `Intersects` between a point and a multi line
/// string.
#[verifier::external_body]
pub(crate) fn isect_multi_line_string(q: Coord, ss: &Vec<Vec<Coord>>) -> (r: bool)
    requires
        coord_finite(q),
        rings_finite(ss.deep_view()),
    ensures
        r == isect_multi_line_string_of(q, ss.deep_view()),
{
    let a: geo::Point = geo::Point::new(bytemuck::cast(q.x), bytemuck::cast(q.y));
    let conv = |c: &Coord| geo::Coord { x: bytemuck::cast(c.x), y: bytemuck::cast(c.y) };
    let ls = |l: &Vec<Coord>| geo::LineString::new(l.iter().map(conv).collect());
    let b: geo::MultiLineString = geo::MultiLineString::new(ss.iter().map(ls).collect());
    geo::Intersects::intersects(&a, &b)
}

/// Relies on geo's `Intersects` between a point and a polygon: the
/// point lies in the interior or on the boundary, and in no hole.
#[verifier::external_body]
pub(crate) fn isect_polygon(q: Coord, p: &PolygonGeom) -> (r: bool)
    requires
        coord_finite(q),
        poly_finite(p.deep_view()),
    ensures
        r == isect_polygon_of(q, p.deep_view()),
{
    let a: geo::Point = geo::Point::new(bytemuck::cast(q.x), bytemuck::cast(q.y));
    let conv = |c: &Coord| geo::Coord { x: bytemuck::cast(c.x), y: bytemuck::cast(c.y) };
    let ls = |l: &Vec<Coord>| geo::LineString::new(l.iter().map(conv).collect());
    let b: geo::Polygon = geo::Polygon::new(ls(&p.exterior), p.interiors.iter().map(ls).collect());
    geo::Intersects::intersects(&a, &b)
}

/// Relies on geo's `Intersects` between a point and a multi polygon:
/// the point intersects some member polygon.
#[verifier::external_body]
pub(crate) fn isect_multi_polygon(q: Coord, ps: &Vec<PolygonGeom>) -> (r: bool)
    requires
        coord_finite(q),
        forall|i: int| 0 <= i < ps.deep_view().len() ==> #[trigger] poly_finite(ps.deep_view()[i]),
    ensures
        r == isect_multi_polygon_of(q, ps.deep_view()),
{
    let a: geo::Point = geo::Point::new(bytemuck::cast(q.x), bytemuck::cast(q.y));
    let conv = |c: &Coord| geo::Coord { x: bytemuck::cast(c.x), y: bytemuck::cast(c.y) };
    let ls = |l: &Vec<Coord>| geo::LineString::new(l.iter().map(conv).collect());
    let gp = |p: &PolygonGeom| geo::Polygon::new(ls(&p.exterior), p.interiors.iter().map(ls).collect());
    let b: geo::MultiPolygon = geo::MultiPolygon::new(ps.iter().map(gp).collect());
    geo::Intersects::intersects(&a, &b)
}

// ---------------------------------------------------------------------------
// Comparing float bit patterns
// ---------------------------------------------------------------------------
/// Whether the 64-bit float with bit pattern `a` compares less than or
/// equal to the one with bit pattern `b` (false whenever either is a
/// NaN).
pub uninterp spec fn le_bits_of(a: u64, b: u64) -> bool;

/// Relies on the `<=` comparison of 64-bit floats, which is exact and
/// determined by the two bit patterns alone. The coordinate pair in
/// the body only serves to read the two bit patterns back as floats.
#[verifier::external_body]
pub(crate) fn f64_le(a: u64, b: u64) -> (r: bool)
    ensures
        r == le_bits_of(a, b),
{
    let x: geo::Coord = geo::Coord { x: bytemuck::cast(a), y: bytemuck::cast(b) };
    x.x <= x.y
}

} // verus!
