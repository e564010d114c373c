use vstd::prelude::*;

verus! {

/// One planar coordinate. The two ordinates are carried as the bit
/// patterns of 64-bit IEEE-754 doubles, so that the codec can be
/// reasoned about over plain integers; all numeric work on them is
/// delegated to the geometry algorithm library.
#[derive(Clone, Copy, Debug, PartialEq, Eq, Structural)]
pub struct Coord {
    pub x: u64,
    pub y: u64,
}

impl View for Coord {
    type V = Coord;

    open spec fn view(&self) -> Coord {
        *self
    }
}

impl DeepView for Coord {
    type V = Coord;

    open spec fn deep_view(&self) -> Coord {
        *self
    }
}

/// A polygon: one exterior ring and any number of interior rings
/// (holes). Rings are ordered, implicitly closed point sequences.
#[derive(Clone, Debug, PartialEq)]
pub struct PolygonGeom {
    pub exterior: Vec<Coord>,
    pub interiors: Vec<Vec<Coord>>,
}

/// Mathematical value of a `PolygonGeom`.
pub struct PolyV {
    pub exterior: Seq<Coord>,
    pub interiors: Seq<Seq<Coord>>,
}

impl DeepView for PolygonGeom {
    type V = PolyV;

    open spec fn deep_view(&self) -> PolyV {
        PolyV { exterior: self.exterior.deep_view(), interiors: self.interiors.deep_view() }
    }
}

/// A geometry value: one of the six concrete kinds, or an ordered
/// collection of further geometry values (possibly nested).
#[derive(Debug, PartialEq)]
pub enum Geometry {
    Point(Coord),
    MultiPoint(Vec<Coord>),
    LineString(Vec<Coord>),
    MultiLineString(Vec<Vec<Coord>>),
    Polygon(PolygonGeom),
    MultiPolygon(Vec<PolygonGeom>),
    Collection(Vec<Geometry>),
}

/// Mathematical value of a `Geometry`.
pub enum GeomV {
    Point(Coord),
    MultiPoint(Seq<Coord>),
    LineString(Seq<Coord>),
    MultiLineString(Seq<Seq<Coord>>),
    Polygon(PolyV),
    MultiPolygon(Seq<PolyV>),
    Collection(Seq<GeomV>),
}

impl DeepView for Geometry {
    type V = GeomV;

    open spec fn deep_view(&self) -> GeomV {
        geom_v(*self)
    }
}

/// Mathematical value of a geometry.
pub open spec fn geom_v(g: Geometry) -> GeomV
    decreases g, 0int,
{
    match g {
        Geometry::Point(c) => GeomV::Point(c),
        Geometry::MultiPoint(v) => GeomV::MultiPoint(v.deep_view()),
        Geometry::LineString(v) => GeomV::LineString(v.deep_view()),
        Geometry::MultiLineString(v) => GeomV::MultiLineString(v.deep_view()),
        Geometry::Polygon(p) => GeomV::Polygon(p.deep_view()),
        Geometry::MultiPolygon(v) => GeomV::MultiPolygon(v.deep_view()),
        Geometry::Collection(gs) => {
            proof {
                assert(decreases_to!(g => gs));
                assert(decreases_to!(gs => gs@));
            }
            GeomV::Collection(geoms_v(gs@))
        },
    }
}

/// Mathematical values of a sequence of geometries, in order.
pub open spec fn geoms_v(gs: Seq<Geometry>) -> Seq<GeomV>
    decreases gs, 0int,
{
    if gs.len() == 0 {
        Seq::empty()
    } else {
        geoms_v(gs.drop_last()).push(geom_v(gs.last()))
    }
}

/// `geoms_v` is the pointwise image of `geom_v`.
pub proof fn lemma_geoms_v(gs: Seq<Geometry>)
    ensures
        geoms_v(gs).len() == gs.len(),
        forall|i: int| 0 <= i < gs.len() ==> geoms_v(gs)[i] == geom_v(gs[i]),
    decreases gs.len(),
{
    if gs.len() > 0 {
        lemma_geoms_v(gs.drop_last());
    }
}

/// The mathematical value of a vector of geometries agrees with
/// `geoms_v` of its contents.
pub proof fn lemma_vec_geoms_v(gs: Vec<Geometry>)
    ensures
        gs.deep_view() == geoms_v(gs@),
{
    lemma_geoms_v(gs@);
    assert(gs.deep_view() =~= geoms_v(gs@));
}

} // verus!
