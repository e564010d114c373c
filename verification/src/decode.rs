use vstd::prelude::*;

use crate::encode::{coord_finite, coords_finite, coords_ok};
use crate::geoalg::{ring_winding, ring_winding_ccw};
use crate::geom::{Coord, GeomV, Geometry, PolyV, PolygonGeom, lemma_vec_geoms_v};
use crate::table::{ColumnarGeometryTable, TableModel};

verus! {

// ---------------------------------------------------------------------------
// What decoding means
// ---------------------------------------------------------------------------
/// A ring as the decoder hands it out: kept as stored when its
/// winding is undefined or already the wanted one; reversed when it
/// winds the other way and the reversed ring indeed winds the wanted
/// way. A ring that winds the wanted way neither as stored nor
/// reversed — possible for a self-touching ring, whose winding is
/// judged at one of several occurrences of its least vertex — is kept
/// as stored. A ring with a non-finite coordinate has no winding and
/// is kept as stored.
pub open spec fn orient_spec(r: Seq<Coord>, want_ccw: bool) -> Seq<Coord> {
    if !coords_finite(r) {
        r
    } else {
        match ring_winding_ccw(r) {
            Some(w) => if w == want_ccw {
                r
            } else if ring_winding_ccw(r.reverse()) == Some(want_ccw) {
                r.reverse()
            } else {
                r
            },
            None => r,
        }
    }
}

/// Whether the ring can be handed out with the wanted winding: it is
/// finite, its winding is defined, and either it or its reverse winds
/// the wanted way. Every simple ring with a defined winding is
/// orientable both ways.
pub open spec fn orientable(r: Seq<Coord>, want_ccw: bool) -> bool {
    &&& coords_finite(r)
    &&& ring_winding_ccw(r) is Some
    &&& (ring_winding_ccw(r) == Some(want_ccw) || ring_winding_ccw(r.reverse()) == Some(
        want_ccw,
    ))
}

/// The polygon decoded from a stored ring list: the first ring is the
/// exterior, re-oriented counter-clockwise; the rest are the interior
/// rings, re-oriented clockwise.
pub open spec fn decoded_polygon(rings: Seq<Seq<Coord>>) -> PolyV {
    PolyV {
        exterior: orient_spec(rings[0], true),
        interiors: rings.drop_first().map_values(|r: Seq<Coord>| orient_spec(r, false)),
    }
}

/// The polygons decoded from a stored list of ring lists.
pub open spec fn decoded_polys(rr: Seq<Seq<Seq<Coord>>>) -> Seq<PolyV> {
    rr.map_values(|rings: Seq<Seq<Coord>>| decoded_polygon(rings))
}

/// The geometries the variant columns hold for one row, in the fixed
/// kind order: point, multi-point, line string, multi line string,
/// polygon, multi polygon. A kind without a column, and a null entry,
/// contribute nothing.
pub open spec fn row_members(t: TableModel, i: int) -> Seq<GeomV> {
    (match t.point {
        Some(col) => if col[i] is Some {
            seq![GeomV::Point(col[i]->0)]
        } else {
            Seq::empty()
        },
        None => Seq::empty(),
    }) + (match t.multi_point {
        Some(col) => if col[i] is Some {
            seq![GeomV::MultiPoint(col[i]->0)]
        } else {
            Seq::empty()
        },
        None => Seq::empty(),
    }) + (match t.line_string {
        Some(col) => if col[i] is Some {
            seq![GeomV::LineString(col[i]->0)]
        } else {
            Seq::empty()
        },
        None => Seq::empty(),
    }) + (match t.multi_line_string {
        Some(col) => if col[i] is Some {
            seq![GeomV::MultiLineString(col[i]->0)]
        } else {
            Seq::empty()
        },
        None => Seq::empty(),
    }) + (match t.polygon {
        Some(col) => if col[i] is Some {
            seq![GeomV::Polygon(decoded_polygon(col[i]->0))]
        } else {
            Seq::empty()
        },
        None => Seq::empty(),
    }) + (match t.multi_polygon {
        Some(col) => if col[i] is Some {
            seq![GeomV::MultiPolygon(decoded_polys(col[i]->0))]
        } else {
            Seq::empty()
        },
        None => Seq::empty(),
    })
}

/// What one row decodes to: nothing when every variant column is null
/// there, the single geometry when exactly one is populated, and a
/// collection of all of them when several are.
pub open spec fn decoded_row(t: TableModel, i: int) -> Option<GeomV> {
    let ms = row_members(t, i);
    if ms.len() == 0 {
        None
    } else if ms.len() == 1 {
        Some(ms[0])
    } else {
        Some(GeomV::Collection(ms))
    }
}

// ---------------------------------------------------------------------------
// Executable decoding
// ---------------------------------------------------------------------------
/// An owned copy of a coordinate list.
pub(crate) fn clone_coords(v: &Vec<Coord>) -> (r: Vec<Coord>)
    ensures
        r.deep_view() == v.deep_view(),
{
    let mut out: Vec<Coord> = Vec::new();
    let mut i: usize = 0;
    while i < v.len()
        invariant
            i <= v@.len(),
            out.deep_view() == v.deep_view().take(i as int),
        decreases v.len() - i,
    {
        let ghost before = out.deep_view();
        out.push(v[i]);
        i = i + 1;
        proof {
            assert(out.deep_view() =~= before.push(v.deep_view()[i - 1]));
            assert(out.deep_view() =~= v.deep_view().take(i as int));
        }
    }
    proof {
        assert(out.deep_view() =~= v.deep_view());
    }
    out
}

/// An owned copy of a ring list.
pub(crate) fn clone_rings(v: &Vec<Vec<Coord>>) -> (r: Vec<Vec<Coord>>)
    ensures
        r.deep_view() == v.deep_view(),
{
    let mut out: Vec<Vec<Coord>> = Vec::new();
    let mut i: usize = 0;
    while i < v.len()
        invariant
            i <= v@.len(),
            out.deep_view() == v.deep_view().take(i as int),
        decreases v.len() - i,
    {
        let ghost before = out.deep_view();
        let ring = clone_coords(&v[i]);
        out.push(ring);
        i = i + 1;
        proof {
            assert(out.deep_view() =~= before.push(v.deep_view()[i - 1]));
            assert(out.deep_view() =~= v.deep_view().take(i as int));
        }
    }
    proof {
        assert(out.deep_view() =~= v.deep_view());
    }
    out
}

/// The ring with its vertices in the opposite order.
fn reversed_ring(v: &Vec<Coord>) -> (r: Vec<Coord>)
    ensures
        r.deep_view() == v.deep_view().reverse(),
{
    let n = v.len();
    let mut out: Vec<Coord> = Vec::new();
    let mut i: usize = 0;
    while i < n
        invariant
            n == v@.len(),
            i <= n,
            out.deep_view().len() == i,
            forall|j: int| 0 <= j < i ==> out.deep_view()[j] == v.deep_view()[n - 1 - j],
        decreases n - i,
    {
        let ghost before = out.deep_view();
        out.push(v[n - 1 - i]);
        i = i + 1;
        proof {
            assert(out.deep_view() =~= before.push(v.deep_view()[n - i]));
        }
    }
    proof {
        assert(out.deep_view() =~= v.deep_view().reverse());
    }
    out
}

/// The ring as the decoder hands it out; beyond matching
/// `orient_spec`, an orientable ring comes back with the wanted
/// winding. A reversed ring is handed out only after its own winding
/// has been checked, since reversal alone need not flip the judged
/// winding of a self-touching ring.
pub fn orient_ring(ring: &Vec<Coord>, want_ccw: bool) -> (r: Vec<Coord>)
    ensures
        r.deep_view() == orient_spec(ring.deep_view(), want_ccw),
        orientable(ring.deep_view(), want_ccw) ==> ring_winding_ccw(r.deep_view()) == Some(
            want_ccw,
        ),
{
    if !coords_ok(ring) {
        return clone_coords(ring);
    }
    match ring_winding(ring) {
        Some(w) => if w == want_ccw {
            clone_coords(ring)
        } else {
            let rev = reversed_ring(ring);
            proof {
                assert forall|i: int| 0 <= i < rev.deep_view().len() implies coord_finite(
                    #[trigger] rev.deep_view()[i],
                ) by {
                    assert(rev.deep_view()[i] == ring.deep_view()[ring.deep_view().len() - 1
                        - i]);
                }
            }
            match ring_winding(&rev) {
                Some(w2) => if w2 == want_ccw {
                    rev
                } else {
                    clone_coords(ring)
                },
                None => clone_coords(ring),
            }
        },
        None => clone_coords(ring),
    }
}

/// Decode one stored polygon entry: the exterior ring re-oriented
/// counter-clockwise, the interior rings re-oriented clockwise, for
/// every ring that is orientable the wanted way (as every simple ring
/// with a defined winding is).
pub fn decode_polygon_entry(rings: &Vec<Vec<Coord>>) -> (p: PolygonGeom)
    requires
        rings.deep_view().len() >= 1,
    ensures
        p.deep_view() == decoded_polygon(rings.deep_view()),
        orientable(rings.deep_view()[0], true) ==> ring_winding_ccw(p.deep_view().exterior)
            == Some(true),
        forall|j: int|
            1 <= j < rings.deep_view().len() && orientable(rings.deep_view()[j], false)
                ==> ring_winding_ccw(#[trigger] p.deep_view().interiors[j - 1]) == Some(false),
{
    let ghost rv = rings.deep_view();
    let exterior = orient_ring(&rings[0], true);
    let mut interiors: Vec<Vec<Coord>> = Vec::new();
    let mut j: usize = 1;
    while j < rings.len()
        invariant
            rv == rings.deep_view(),
            rv.len() >= 1,
            1 <= j <= rv.len(),
            interiors.deep_view().len() == j - 1,
            forall|k: int|
                0 <= k < j - 1 ==> interiors.deep_view()[k] == orient_spec(rv[k + 1], false),
            forall|k: int|
                0 <= k < j - 1 && orientable(rv[k + 1], false) ==> ring_winding_ccw(
                    #[trigger] interiors.deep_view()[k],
                ) == Some(false),
        decreases rings.len() - j,
    {
        let ghost before = interiors.deep_view();
        let ring = orient_ring(&rings[j], false);
        interiors.push(ring);
        j = j + 1;
        proof {
            assert(interiors.deep_view() =~= before.push(ring.deep_view()));
        }
    }
    let p = PolygonGeom { exterior, interiors };
    proof {
        assert(p.deep_view().interiors =~= rv.drop_first().map_values(
            |r: Seq<Coord>| orient_spec(r, false),
        ));
        assert(p.deep_view() =~~= decoded_polygon(rv));
    }
    p
}

/// Decode one stored multi-polygon entry.
pub fn decode_multi_polygon_entry(rr: &Vec<Vec<Vec<Coord>>>) -> (ps: Vec<PolygonGeom>)
    requires
        forall|i: int| 0 <= i < rr.deep_view().len() ==> rr.deep_view()[i].len() >= 1,
    ensures
        ps.deep_view() == decoded_polys(rr.deep_view()),
{
    let ghost rv = rr.deep_view();
    let mut out: Vec<PolygonGeom> = Vec::new();
    let mut i: usize = 0;
    while i < rr.len()
        invariant
            rv == rr.deep_view(),
            i <= rv.len(),
            forall|k: int| 0 <= k < rv.len() ==> rv[k].len() >= 1,
            out.deep_view().len() == i,
            forall|k: int| 0 <= k < i ==> out.deep_view()[k] == decoded_polygon(rv[k]),
        decreases rr.len() - i,
    {
        let ghost before = out.deep_view();
        proof {
            assert(rr@[i as int].deep_view() == rv[i as int]);
        }
        let p = decode_polygon_entry(&rr[i]);
        out.push(p);
        i = i + 1;
        proof {
            assert(out.deep_view() =~= before.push(p.deep_view()));
        }
    }
    proof {
        assert(out.deep_view() =~= decoded_polys(rv));
    }
    out
}

impl ColumnarGeometryTable {
    /// Reconstruct the geometry of one row from every populated
    /// variant column: none when all entries are null there, the
    /// single geometry when exactly one is populated, a collection of
    /// all of them otherwise, members in the fixed kind order.
    /// Decoding reads the table and changes nothing.
    #[verifier::spinoff_prover]
    #[verifier::rlimit(60)]
    pub fn get_row(&self, row: usize) -> (r: Option<Geometry>)
        requires
            self@.wf(),
            row < self@.row_count,
        ensures
            r.deep_view() == decoded_row(self@, row as int),
    {
        let ghost i = row as int;
        let mut members: Vec<Geometry> = Vec::new();
        let ghost m0 = Seq::<GeomV>::empty();
        match self.point_column() {
            Some(col) => {
                match col.get(row) {
                    Some(c) => {
                        members.push(Geometry::Point(*c));
                        proof {
                            assert(members.deep_view() =~= m0.push(GeomV::Point(col@[i]->0)));
                        }
                    },
                    None => {},
                }
            },
            None => {},
        }
        let ghost m1 = members.deep_view();
        match self.multi_point_column() {
            Some(col) => {
                match col.get(row) {
                    Some(v) => {
                        let owned = clone_coords(v);
                        members.push(Geometry::MultiPoint(owned));
                        proof {
                            assert(members.deep_view() =~= m1.push(
                                GeomV::MultiPoint(col@[i]->0),
                            ));
                        }
                    },
                    None => {},
                }
            },
            None => {},
        }
        let ghost m2 = members.deep_view();
        match self.line_string_column() {
            Some(col) => {
                match col.get(row) {
                    Some(v) => {
                        let owned = clone_coords(v);
                        members.push(Geometry::LineString(owned));
                        proof {
                            assert(members.deep_view() =~= m2.push(
                                GeomV::LineString(col@[i]->0),
                            ));
                        }
                    },
                    None => {},
                }
            },
            None => {},
        }
        let ghost m3 = members.deep_view();
        match self.multi_line_string_column() {
            Some(col) => {
                match col.get(row) {
                    Some(v) => {
                        let owned = clone_rings(v);
                        members.push(Geometry::MultiLineString(owned));
                        proof {
                            assert(members.deep_view() =~= m3.push(
                                GeomV::MultiLineString(col@[i]->0),
                            ));
                        }
                    },
                    None => {},
                }
            },
            None => {},
        }
        let ghost m4 = members.deep_view();
        match self.polygon_column() {
            Some(col) => {
                match col.get(row) {
                    Some(v) => {
                        let p = decode_polygon_entry(v);
                        members.push(Geometry::Polygon(p));
                        proof {
                            assert(members.deep_view() =~= m4.push(
                                GeomV::Polygon(decoded_polygon(col@[i]->0)),
                            ));
                        }
                    },
                    None => {},
                }
            },
            None => {},
        }
        let ghost m5 = members.deep_view();
        match self.multi_polygon_column() {
            Some(col) => {
                match col.get(row) {
                    Some(v) => {
                        let ps = decode_multi_polygon_entry(v);
                        members.push(Geometry::MultiPolygon(ps));
                        proof {
                            assert(members.deep_view() =~= m5.push(
                                GeomV::MultiPolygon(decoded_polys(col@[i]->0)),
                            ));
                        }
                    },
                    None => {},
                }
            },
            None => {},
        }
        proof {
            assert(members.deep_view() =~= row_members(self@, i));
        }
        if members.len() == 0 {
            None
        } else if members.len() == 1 {
            match members.pop() {
                Some(g) => Some(g),
                None => vstd::pervasive::unreached(),
            }
        } else {
            proof {
                lemma_vec_geoms_v(members);
            }
            Some(Geometry::Collection(members))
        }
    }
}

} // verus!
