use vstd::prelude::*;

use crate::decode::{decoded_polygon, decoded_polys, decoded_row, row_members};
use crate::encode::{
    EncModel, apply_plan, buckets, coord_finite, coords_entry, coords_finite, finish_model,
    flatten_seq, flatten_v, has_staged, plan_conflicts, point_entry, polys_rings, rings_entry,
    rings3_entry, rings_of, route, route_members,
};
use crate::ops::geom_finite;
use crate::geom::{Coord, GeomV};
use crate::variant::{BuilderModel, BuilderState, padded};

verus! {

/// Flattening a list without nested collections returns it unchanged.
proof fn lemma_flatten_simple(ms: Seq<GeomV>)
    requires
        forall|i: int| 0 <= i < ms.len() ==> !(#[trigger] ms[i] is Collection),
    ensures
        flatten_seq(ms) == ms,
    decreases ms.len(),
{
    if ms.len() == 0 {
        assert(flatten_seq(ms) =~= ms);
    } else {
        assert(!(ms[0] is Collection));
        assert(flatten_v(ms.first()) =~= seq![ms.first()]);
        assert forall|i: int| 0 <= i < ms.drop_first().len() implies !(#[trigger] ms.drop_first()[i]
            is Collection) by {
            assert(ms.drop_first()[i] == ms[i + 1]);
        }
        lemma_flatten_simple(ms.drop_first());
        assert(flatten_seq(ms) =~= ms);
    }
}

/// Bucketing a list of points puts exactly the points, in order, in
/// the point bucket and nothing anywhere else.
proof fn lemma_buckets_points(ms: Seq<GeomV>, cs: Seq<Coord>)
    requires
        ms.len() == cs.len(),
        forall|i: int| 0 <= i < ms.len() ==> ms[i] == GeomV::Point(#[trigger] cs[i]),
    ensures
        buckets(ms).0 == cs,
        buckets(ms).1 == Seq::<Seq<Coord>>::empty(),
        buckets(ms).2.len() == 0,
        buckets(ms).3 == Seq::<crate::GeoError>::empty(),
    decreases ms.len(),
{
    if ms.len() == 0 {
        assert(buckets(ms).0 =~= cs);
        assert(buckets(ms).1 =~= Seq::<Seq<Coord>>::empty());
        assert(buckets(ms).3 =~= Seq::<crate::GeoError>::empty());
    } else {
        assert(ms[0] == GeomV::Point(cs[0]));
        assert forall|i: int| 0 <= i < ms.drop_first().len() implies ms.drop_first()[i]
            == GeomV::Point(#[trigger] cs.drop_first()[i]) by {
            assert(ms.drop_first()[i] == ms[i + 1]);
            assert(cs.drop_first()[i] == cs[i + 1]);
        }
        lemma_buckets_points(ms.drop_first(), cs.drop_first());
        assert(buckets(ms).0 =~= seq![cs[0]] + cs.drop_first());
        assert(buckets(ms).0 =~= cs);
        assert(buckets(ms).1 =~= Seq::<Seq<Coord>>::empty());
        assert(buckets(ms).3 =~= Seq::<crate::GeoError>::empty());
    }
}

/// Round trip of a single point: encoding one finite point as the
/// whole of one row and finishing the table decodes that row to the
/// same point, exactly.
pub proof fn lemma_point_round_trip(c: Coord)
    requires
        coord_finite(c),
    ensures
        ({
            let m = apply_plan(EncModel::init(), route(Some(GeomV::Point(c))), true);
            &&& !plan_conflicts(EncModel::init(), route(Some(GeomV::Point(c))))
            &&& !has_staged(m)
            &&& decoded_row(finish_model(m), 0) == Some(GeomV::Point(c))
        }),
{
    let m0 = EncModel::init();
    let plan = route(Some(GeomV::Point(c)));
    let m = apply_plan(m0, plan, true);
    assert(plan.point == Some(Some(c)));
    assert(m.point.entries =~= seq![Some(c)]);
    let t = finish_model(m);
    assert(t.point == Some(padded(m.point.entries, 1)));
    assert(padded(m.point.entries, 1) =~= seq![Some(c)]);
    assert(t.multi_point is None && t.line_string is None && t.multi_line_string is None
        && t.polygon is None && t.multi_polygon is None);
    assert(row_members(t, 0) =~= seq![GeomV::Point(c)]);
}

/// Collapse rule: a collection of two or more finite points encoded
/// as one row populates exactly the multi-point column, with the
/// points in their original order, and the row decodes back to that
/// multi-point.
pub proof fn lemma_point_collection_collapses(cs: Seq<Coord>)
    requires
        cs.len() >= 2,
        coords_finite(cs),
    ensures
        ({
            let ms = cs.map_values(|c: Coord| GeomV::Point(c));
            let m = apply_plan(EncModel::init(), route(Some(GeomV::Collection(ms))), true);
            let t = finish_model(m);
            &&& !plan_conflicts(EncModel::init(), route(Some(GeomV::Collection(ms))))
            &&& !has_staged(m)
            &&& t.row_count == 1
            &&& t.multi_point == Some(seq![Some(cs)])
            &&& t.point is None && t.line_string is None && t.multi_line_string is None
                && t.polygon is None && t.multi_polygon is None
            &&& decoded_row(t, 0) == Some(GeomV::MultiPoint(cs))
        }),
{
    let ms = cs.map_values(|c: Coord| GeomV::Point(c));
    assert forall|i: int| 0 <= i < ms.len() implies !(#[trigger] ms[i] is Collection) by {
        assert(ms[i] == GeomV::Point(cs[i]));
    }
    lemma_flatten_simple(ms);
    assert forall|i: int| 0 <= i < ms.len() implies ms[i] == GeomV::Point(#[trigger] cs[i]) by {}
    lemma_buckets_points(ms, cs);
    let plan = route(Some(GeomV::Collection(ms)));
    assert(plan == route_members(ms));
    assert(coords_entry(cs).0 == Some(cs));
    assert(plan.multi_point == Some(Some(cs)));
    assert(plan.point is None && plan.line_string is None && plan.multi_line_string is None
        && plan.polygon is None && plan.multi_polygon is None);
    let m0 = EncModel::init();
    let m = apply_plan(m0, plan, true);
    assert(m.multi_point.entries =~= seq![Some(cs)]);
    let t = finish_model(m);
    assert(padded(m.multi_point.entries, 1) =~= seq![Some(cs)]);
    assert(row_members(t, 0) =~= seq![GeomV::MultiPoint(cs)]);
}

/// Heterogeneous fan-out: a collection holding one finite point and
/// one finite line string encoded as one row populates exactly the
/// point and line-string columns at that row, and the row decodes to
/// a collection holding both, point first.
pub proof fn lemma_heterogeneous_fan_out(c: Coord, l: Seq<Coord>)
    requires
        coord_finite(c),
        coords_finite(l),
    ensures
        ({
            let ms = seq![GeomV::Point(c), GeomV::LineString(l)];
            let m = apply_plan(EncModel::init(), route(Some(GeomV::Collection(ms))), true);
            let t = finish_model(m);
            &&& !plan_conflicts(EncModel::init(), route(Some(GeomV::Collection(ms))))
            &&& !has_staged(m)
            &&& t.row_count == 1
            &&& t.point == Some(seq![Some(c)])
            &&& t.line_string == Some(seq![Some(l)])
            &&& t.multi_point is None && t.multi_line_string is None && t.polygon is None
                && t.multi_polygon is None
            &&& decoded_row(t, 0) == Some(
                GeomV::Collection(seq![GeomV::Point(c), GeomV::LineString(l)]),
            )
        }),
{
    let ms = seq![GeomV::Point(c), GeomV::LineString(l)];
    assert forall|i: int| 0 <= i < ms.len() implies !(#[trigger] ms[i] is Collection) by {
        if i == 0 {
            assert(ms[0] == GeomV::Point(c));
        } else {
            assert(ms[1] == GeomV::LineString(l));
        }
    }
    lemma_flatten_simple(ms);
    let rest = ms.drop_first();
    assert(rest =~= seq![GeomV::LineString(l)]);
    let rest2 = rest.drop_first();
    assert(rest2 =~= Seq::<GeomV>::empty());
    assert(buckets(rest2).0 =~= Seq::<Coord>::empty());
    assert(buckets(rest).0 =~= Seq::<Coord>::empty());
    assert(buckets(rest).1 =~= seq![l]);
    assert(buckets(rest).2 =~= Seq::<crate::geom::PolyV>::empty());
    assert(buckets(rest).3 =~= Seq::<crate::GeoError>::empty());
    assert(buckets(ms).0 =~= seq![c]);
    assert(buckets(ms).1 =~= seq![l]);
    assert(buckets(ms).2 =~= Seq::<crate::geom::PolyV>::empty());
    assert(buckets(ms).3 =~= Seq::<crate::GeoError>::empty());
    let plan = route(Some(GeomV::Collection(ms)));
    assert(plan.point == Some(Some(c)));
    assert(plan.line_string == Some(Some(l)));
    let m0 = EncModel::init();
    let m = apply_plan(m0, plan, true);
    assert(m.point.entries =~= seq![Some(c)]);
    assert(m.line_string.entries =~= seq![Some(l)]);
    let t = finish_model(m);
    assert(padded(m.point.entries, 1) =~= seq![Some(c)]);
    assert(padded(m.line_string.entries, 1) =~= seq![Some(l)]);
    assert(row_members(t, 0) =~= seq![GeomV::Point(c), GeomV::LineString(l)]);
}

/// Null row: a missing geometry, or an empty collection, encoded as a
/// whole row advances the row count by one, touches no variant
/// builder, and in the finished table every present variant column is
/// null at that row.
pub proof fn lemma_null_row(m: EncModel)
    requires
        m.wf(),
        !m.finished,
        !has_staged(m),
    ensures
        route(Some(GeomV::Collection(Seq::empty()))) == route(None::<GeomV>),
        ({
            let m2 = apply_plan(m, route(None::<GeomV>), true);
            let t = finish_model(m2);
            &&& m2.row == m.row + 1
            &&& m2.point == m.point && m2.multi_point == m.multi_point && m2.line_string
                == m.line_string && m2.multi_line_string == m.multi_line_string && m2.polygon
                == m.polygon && m2.multi_polygon == m.multi_polygon
            &&& t.row_count == m.row + 1
            &&& (t.point matches Some(col) ==> col[m.row] is None)
            &&& (t.multi_point matches Some(col) ==> col[m.row] is None)
            &&& (t.line_string matches Some(col) ==> col[m.row] is None)
            &&& (t.multi_line_string matches Some(col) ==> col[m.row] is None)
            &&& (t.polygon matches Some(col) ==> col[m.row] is None)
            &&& (t.multi_polygon matches Some(col) ==> col[m.row] is None)
        }),
{
    assert(flatten_seq(Seq::<GeomV>::empty()) =~= Seq::<GeomV>::empty());
    assert(route(Some(GeomV::Collection(Seq::empty()))) =~~= route(None::<GeomV>));
    let m2 = apply_plan(m, route(None::<GeomV>), true);
    let t = finish_model(m2);
    assert(t.point matches Some(col) ==> col[m.row] is None) by {
        if !(m2.point.state is Uninitialized) {
            assert(padded(m2.point.entries, m2.row)[m.row] is None);
        }
    }
    assert(t.multi_point matches Some(col) ==> col[m.row] is None) by {
        if !(m2.multi_point.state is Uninitialized) {
            assert(padded(m2.multi_point.entries, m2.row)[m.row] is None);
        }
    }
    assert(t.line_string matches Some(col) ==> col[m.row] is None) by {
        if !(m2.line_string.state is Uninitialized) {
            assert(padded(m2.line_string.entries, m2.row)[m.row] is None);
        }
    }
    assert(t.multi_line_string matches Some(col) ==> col[m.row] is None) by {
        if !(m2.multi_line_string.state is Uninitialized) {
            assert(padded(m2.multi_line_string.entries, m2.row)[m.row] is None);
        }
    }
    assert(t.polygon matches Some(col) ==> col[m.row] is None) by {
        if !(m2.polygon.state is Uninitialized) {
            assert(padded(m2.polygon.entries, m2.row)[m.row] is None);
        }
    }
    assert(t.multi_polygon matches Some(col) ==> col[m.row] is None) by {
        if !(m2.multi_polygon.state is Uninitialized) {
            assert(padded(m2.multi_polygon.entries, m2.row)[m.row] is None);
        }
    }
}

/// The encoder state after encoding each of the points as one whole
/// row, in order.
pub open spec fn encode_points(m0: EncModel, cs: Seq<Coord>) -> EncModel
    decreases cs.len(),
{
    if cs.len() == 0 {
        m0
    } else {
        apply_plan(
            encode_points(m0, cs.drop_last()),
            route(Some(GeomV::Point(cs.last()))),
            true,
        )
    }
}

/// Sparse schema: a table built from nothing but finite point
/// records has exactly one variant column, the point column, holding
/// each point at its row, and its row count equals the number of
/// records.
pub proof fn lemma_sparse_schema_points(cs: Seq<Coord>)
    requires
        coords_finite(cs),
    ensures
        ({
            let m = encode_points(EncModel::init(), cs);
            let t = finish_model(m);
            &&& m.row == cs.len()
            &&& m.point.entries == Seq::new(cs.len(), |i: int| Some(cs[i]))
            &&& m.point.state == (if cs.len() == 0 {
                BuilderState::Uninitialized
            } else {
                BuilderState::Active
            })
            &&& m.multi_point == BuilderModel::<Seq<Coord>>::uninitialized()
            &&& m.line_string == BuilderModel::<Seq<Coord>>::uninitialized()
            &&& m.multi_line_string == BuilderModel::<Seq<Seq<Coord>>>::uninitialized()
            &&& m.polygon == BuilderModel::<Seq<Seq<Coord>>>::uninitialized()
            &&& m.multi_polygon == BuilderModel::<Seq<Seq<Seq<Coord>>>>::uninitialized()
            &&& t.row_count == cs.len()
            &&& (cs.len() == 0 ==> t.point is None)
            &&& (cs.len() > 0 ==> t.point == Some(Seq::new(cs.len(), |i: int| Some(cs[i]))))
            &&& t.multi_point is None && t.line_string is None && t.multi_line_string is None
                && t.polygon is None && t.multi_polygon is None
        }),
    decreases cs.len(),
{
    let m = encode_points(EncModel::init(), cs);
    if cs.len() == 0 {
        assert(m.point.entries =~= Seq::new(cs.len(), |i: int| Some(cs[i])));
    } else {
        assert forall|i: int| 0 <= i < cs.drop_last().len() implies coord_finite(
            #[trigger] cs.drop_last()[i],
        ) by {
            assert(cs.drop_last()[i] == cs[i]);
        }
        lemma_sparse_schema_points(cs.drop_last());
        let prev = encode_points(EncModel::init(), cs.drop_last());
        assert(point_entry(cs.last()).0 == Some(cs.last()));
        assert(prev.point.entries.len() == prev.row);
        assert(m.point.entries =~= prev.point.entries.push(Some(cs.last())));
        assert(m.point.entries =~= Seq::new(cs.len(), |i: int| Some(cs[i])));
        let t = finish_model(m);
        assert(padded(m.point.entries, m.row) =~= m.point.entries);
    }
}


/// The form in which the decoder hands a stored geometry back: the
/// same value, except that polygon rings come re-oriented
/// canonically.
pub open spec fn canonical_of(g: GeomV) -> GeomV {
    match g {
        GeomV::Polygon(p) => GeomV::Polygon(decoded_polygon(rings_of(p))),
        GeomV::MultiPolygon(ps) => GeomV::MultiPolygon(decoded_polys(polys_rings(ps))),
        _ => g,
    }
}

/// Round trip of any single finite non-collection geometry: encoding
/// it as the whole of one row and finishing the table decodes that
/// row back to the same geometry, polygon rings re-oriented
/// canonically.
pub proof fn lemma_simple_round_trip(g: GeomV)
    requires
        !(g is Collection),
        geom_finite(g),
    ensures
        ({
            let m = apply_plan(EncModel::init(), route(Some(g)), true);
            &&& !plan_conflicts(EncModel::init(), route(Some(g)))
            &&& !has_staged(m)
            &&& decoded_row(finish_model(m), 0) == Some(canonical_of(g))
        }),
{
    let m0 = EncModel::init();
    let plan = route(Some(g));
    let m = apply_plan(m0, plan, true);
    let t = finish_model(m);
    match g {
        GeomV::Point(c) => {
            assert(plan.point == Some(Some(c)));
            assert(m.point.entries =~= seq![Some(c)]);
            assert(padded(m.point.entries, 1) =~= seq![Some(c)]);
            assert(row_members(t, 0) =~= seq![GeomV::Point(c)]);
        },
        GeomV::MultiPoint(s) => {
            assert(plan.multi_point == Some(Some(s)));
            assert(m.multi_point.entries =~= seq![Some(s)]);
            assert(padded(m.multi_point.entries, 1) =~= seq![Some(s)]);
            assert(row_members(t, 0) =~= seq![GeomV::MultiPoint(s)]);
        },
        GeomV::LineString(s) => {
            assert(plan.line_string == Some(Some(s)));
            assert(m.line_string.entries =~= seq![Some(s)]);
            assert(padded(m.line_string.entries, 1) =~= seq![Some(s)]);
            assert(row_members(t, 0) =~= seq![GeomV::LineString(s)]);
        },
        GeomV::MultiLineString(ss) => {
            assert(plan.multi_line_string == Some(Some(ss)));
            assert(m.multi_line_string.entries =~= seq![Some(ss)]);
            assert(padded(m.multi_line_string.entries, 1) =~= seq![Some(ss)]);
            assert(row_members(t, 0) =~= seq![GeomV::MultiLineString(ss)]);
        },
        GeomV::Polygon(p) => {
            assert forall|i: int| 0 <= i < rings_of(p).len() implies coords_finite(
                #[trigger] rings_of(p)[i],
            ) by {
                if i == 0 {
                    assert(rings_of(p)[0] == p.exterior);
                } else {
                    assert(rings_of(p)[i] == p.interiors[i - 1]);
                }
            }
            assert(rings_entry(rings_of(p)).0 == Some(rings_of(p)));
            assert(plan.polygon == Some(Some(rings_of(p))));
            assert(m.polygon.entries =~= seq![Some(rings_of(p))]);
            assert(padded(m.polygon.entries, 1) =~= seq![Some(rings_of(p))]);
            assert(row_members(t, 0) =~= seq![GeomV::Polygon(decoded_polygon(rings_of(p)))]);
        },
        GeomV::MultiPolygon(ps) => {
            assert forall|i: int| 0 <= i < polys_rings(ps).len() implies crate::encode::rings_finite(
                #[trigger] polys_rings(ps)[i],
            ) by {
                assert(polys_rings(ps)[i] == rings_of(ps[i]));
                assert forall|j: int| 0 <= j < rings_of(ps[i]).len() implies coords_finite(
                    #[trigger] rings_of(ps[i])[j],
                ) by {
                    if j == 0 {
                        assert(rings_of(ps[i])[0] == ps[i].exterior);
                    } else {
                        assert(rings_of(ps[i])[j] == ps[i].interiors[j - 1]);
                    }
                }
            }
            assert(rings3_entry(polys_rings(ps)).0 == Some(polys_rings(ps)));
            assert(plan.multi_polygon == Some(Some(polys_rings(ps))));
            assert(m.multi_polygon.entries =~= seq![Some(polys_rings(ps))]);
            assert(padded(m.multi_polygon.entries, 1) =~= seq![Some(polys_rings(ps))]);
            assert(row_members(t, 0) =~= seq![
                GeomV::MultiPolygon(decoded_polys(polys_rings(ps))),
            ]);
        },
        GeomV::Collection(_) => {},
    }
}

} // verus!
