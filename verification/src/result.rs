use vstd::prelude::*;

use crate::GeoError;
use crate::encode::{polys_rings, rings_of};
use crate::geom::{Coord, PolyV, PolygonGeom};
use crate::variant::{VariantColumn, nulls};

verus! {

/// The geometry kinds a result column can carry.
#[derive(Clone, Copy, Debug, PartialEq, Eq, Structural)]
pub enum GeomTypes {
    Point,
    MultiPoint,
    Line,
    LineString,
    MultiLineString,
    Polygon,
    MultiPolygon,
}

/// One computed output for one row: nothing, a scalar (the bit
/// pattern of a 64-bit float), or one geometry value.
#[derive(Debug, PartialEq)]
pub enum GeomOpResult {
    Null,
    Point(Coord),
    MultiPoint(Vec<Coord>),
    Line(Coord, Coord),
    LineString(Vec<Coord>),
    MultiLineString(Vec<Vec<Coord>>),
    Polygon(PolygonGeom),
    MultiPolygon(Vec<PolygonGeom>),
    Float(u64),
}

/// Mathematical value of a `GeomOpResult`.
pub enum OpResV {
    Null,
    Point(Coord),
    MultiPoint(Seq<Coord>),
    Line(Coord, Coord),
    LineString(Seq<Coord>),
    MultiLineString(Seq<Seq<Coord>>),
    Polygon(PolyV),
    MultiPolygon(Seq<PolyV>),
    Float(u64),
}

impl DeepView for GeomOpResult {
    type V = OpResV;

    open spec fn deep_view(&self) -> OpResV {
        match self {
            GeomOpResult::Null => OpResV::Null,
            GeomOpResult::Point(c) => OpResV::Point(*c),
            GeomOpResult::MultiPoint(v) => OpResV::MultiPoint(v.deep_view()),
            GeomOpResult::Line(a, b) => OpResV::Line(*a, *b),
            GeomOpResult::LineString(v) => OpResV::LineString(v.deep_view()),
            GeomOpResult::MultiLineString(v) => OpResV::MultiLineString(v.deep_view()),
            GeomOpResult::Polygon(p) => OpResV::Polygon(p.deep_view()),
            GeomOpResult::MultiPolygon(v) => OpResV::MultiPolygon(v.deep_view()),
            GeomOpResult::Float(x) => OpResV::Float(*x),
        }
    }
}

/// The output-side builder: one column whose physical layout is fixed
/// by the first non-null value it receives. Until then it only counts
/// the nulls it owes.
pub enum Builder {
    Pending(usize),
    Scalar(Vec<Option<u64>>),
    Point(Vec<Option<Coord>>),
    MultiPoint(Vec<Option<Vec<Coord>>>),
    LineString(Vec<Option<Vec<Coord>>>),
    MultiLineString(Vec<Option<Vec<Vec<Coord>>>>),
    Polygon(Vec<Option<Vec<Vec<Coord>>>>),
    MultiPolygon(Vec<Option<Vec<Vec<Vec<Coord>>>>>),
}

/// Mathematical value of a `Builder`.
#[verifier::ext_equal]
pub enum ResModel {
    Pending(int),
    Scalar(Seq<Option<u64>>),
    Point(Seq<Option<Coord>>),
    MultiPoint(Seq<Option<Seq<Coord>>>),
    LineString(Seq<Option<Seq<Coord>>>),
    MultiLineString(Seq<Option<Seq<Seq<Coord>>>>),
    Polygon(Seq<Option<Seq<Seq<Coord>>>>),
    MultiPolygon(Seq<Option<Seq<Seq<Seq<Coord>>>>>),
}

impl View for Builder {
    type V = ResModel;

    open spec fn view(&self) -> ResModel {
        match self {
            Builder::Pending(k) => ResModel::Pending(*k as int),
            Builder::Scalar(v) => ResModel::Scalar(v.deep_view()),
            Builder::Point(v) => ResModel::Point(v.deep_view()),
            Builder::MultiPoint(v) => ResModel::MultiPoint(v.deep_view()),
            Builder::LineString(v) => ResModel::LineString(v.deep_view()),
            Builder::MultiLineString(v) => ResModel::MultiLineString(v.deep_view()),
            Builder::Polygon(v) => ResModel::Polygon(v.deep_view()),
            Builder::MultiPolygon(v) => ResModel::MultiPolygon(v.deep_view()),
        }
    }
}

/// The number of rows the builder has accounted for.
pub open spec fn res_len(m: ResModel) -> int {
    match m {
        ResModel::Pending(k) => k,
        ResModel::Scalar(s) => s.len() as int,
        ResModel::Point(s) => s.len() as int,
        ResModel::MultiPoint(s) => s.len() as int,
        ResModel::LineString(s) => s.len() as int,
        ResModel::MultiLineString(s) => s.len() as int,
        ResModel::Polygon(s) => s.len() as int,
        ResModel::MultiPolygon(s) => s.len() as int,
    }
}

/// What adding one result does: a null always fits; the first
/// non-null value fixes the layout and settles the owed nulls; a
/// later value of another layout is refused.
pub open spec fn res_add(m: ResModel, v: OpResV) -> Result<ResModel, GeoError> {
    match v {
        OpResV::Null => Ok(
            match m {
                ResModel::Pending(k) => ResModel::Pending(k + 1),
                ResModel::Scalar(s) => ResModel::Scalar(s.push(None)),
                ResModel::Point(s) => ResModel::Point(s.push(None)),
                ResModel::MultiPoint(s) => ResModel::MultiPoint(s.push(None)),
                ResModel::LineString(s) => ResModel::LineString(s.push(None)),
                ResModel::MultiLineString(s) => ResModel::MultiLineString(s.push(None)),
                ResModel::Polygon(s) => ResModel::Polygon(s.push(None)),
                ResModel::MultiPolygon(s) => ResModel::MultiPolygon(s.push(None)),
            },
        ),
        OpResV::Float(x) => match m {
            ResModel::Pending(k) => Ok(ResModel::Scalar(nulls::<u64>(k).push(Some(x)))),
            ResModel::Scalar(s) => Ok(ResModel::Scalar(s.push(Some(x)))),
            _ => Err(GeoError::IncompatibleResultType),
        },
        OpResV::Point(c) => match m {
            ResModel::Pending(k) => Ok(ResModel::Point(nulls::<Coord>(k).push(Some(c)))),
            ResModel::Point(s) => Ok(ResModel::Point(s.push(Some(c)))),
            _ => Err(GeoError::IncompatibleResultType),
        },
        OpResV::MultiPoint(ps) => match m {
            ResModel::Pending(k) => Ok(
                ResModel::MultiPoint(nulls::<Seq<Coord>>(k).push(Some(ps))),
            ),
            ResModel::MultiPoint(s) => Ok(ResModel::MultiPoint(s.push(Some(ps)))),
            _ => Err(GeoError::IncompatibleResultType),
        },
        OpResV::Line(a, b) => match m {
            ResModel::Pending(k) => Ok(
                ResModel::LineString(nulls::<Seq<Coord>>(k).push(Some(seq![a, b]))),
            ),
            ResModel::LineString(s) => Ok(ResModel::LineString(s.push(Some(seq![a, b])))),
            _ => Err(GeoError::IncompatibleResultType),
        },
        OpResV::LineString(ls) => match m {
            ResModel::Pending(k) => Ok(
                ResModel::LineString(nulls::<Seq<Coord>>(k).push(Some(ls))),
            ),
            ResModel::LineString(s) => Ok(ResModel::LineString(s.push(Some(ls)))),
            _ => Err(GeoError::IncompatibleResultType),
        },
        OpResV::MultiLineString(ml) => match m {
            ResModel::Pending(k) => Ok(
                ResModel::MultiLineString(nulls::<Seq<Seq<Coord>>>(k).push(Some(ml))),
            ),
            ResModel::MultiLineString(s) => Ok(ResModel::MultiLineString(s.push(Some(ml)))),
            _ => Err(GeoError::IncompatibleResultType),
        },
        OpResV::Polygon(p) => match m {
            ResModel::Pending(k) => Ok(
                ResModel::Polygon(nulls::<Seq<Seq<Coord>>>(k).push(Some(rings_of(p)))),
            ),
            ResModel::Polygon(s) => Ok(ResModel::Polygon(s.push(Some(rings_of(p))))),
            _ => Err(GeoError::IncompatibleResultType),
        },
        OpResV::MultiPolygon(ps) => match m {
            ResModel::Pending(k) => Ok(
                ResModel::MultiPolygon(nulls::<Seq<Seq<Seq<Coord>>>>(k).push(Some(polys_rings(ps)))),
            ),
            ResModel::MultiPolygon(s) => Ok(ResModel::MultiPolygon(s.push(Some(polys_rings(ps))))),
            _ => Err(GeoError::IncompatibleResultType),
        },
    }
}

/// The contract every `add` method meets.
pub open spec fn res_outcome(
    m0: ResModel,
    m1: ResModel,
    v: OpResV,
    r: Result<(), GeoError>,
) -> bool {
    match res_add(m0, v) {
        Ok(m) => r == Ok::<(), GeoError>(()) && m1 == m,
        Err(e) => r == Err::<(), GeoError>(e) && m1 == m0,
    }
}

/// The finished output column: the layout the first value fixed, or
/// no layout at all when only nulls were seen.
pub enum ResultColumn {
    Null(usize),
    Scalar(VariantColumn<u64>),
    Point(VariantColumn<Coord>),
    MultiPoint(VariantColumn<Vec<Coord>>),
    LineString(VariantColumn<Vec<Coord>>),
    MultiLineString(VariantColumn<Vec<Vec<Coord>>>),
    Polygon(VariantColumn<Vec<Vec<Coord>>>),
    MultiPolygon(VariantColumn<Vec<Vec<Vec<Coord>>>>),
}

/// Mathematical value of a `ResultColumn`.
#[verifier::ext_equal]
pub enum ResColV {
    Null(int),
    Scalar(Seq<Option<u64>>),
    Point(Seq<Option<Coord>>),
    MultiPoint(Seq<Option<Seq<Coord>>>),
    LineString(Seq<Option<Seq<Coord>>>),
    MultiLineString(Seq<Option<Seq<Seq<Coord>>>>),
    Polygon(Seq<Option<Seq<Seq<Coord>>>>),
    MultiPolygon(Seq<Option<Seq<Seq<Seq<Coord>>>>>),
}

impl View for ResultColumn {
    type V = ResColV;

    open spec fn view(&self) -> ResColV {
        match self {
            ResultColumn::Null(k) => ResColV::Null(*k as int),
            ResultColumn::Scalar(c) => ResColV::Scalar(c@),
            ResultColumn::Point(c) => ResColV::Point(c@),
            ResultColumn::MultiPoint(c) => ResColV::MultiPoint(c@),
            ResultColumn::LineString(c) => ResColV::LineString(c@),
            ResultColumn::MultiLineString(c) => ResColV::MultiLineString(c@),
            ResultColumn::Polygon(c) => ResColV::Polygon(c@),
            ResultColumn::MultiPolygon(c) => ResColV::MultiPolygon(c@),
        }
    }
}

/// What finishing a builder yields.
pub open spec fn res_finish(m: ResModel) -> ResColV {
    match m {
        ResModel::Pending(k) => ResColV::Null(k),
        ResModel::Scalar(s) => ResColV::Scalar(s),
        ResModel::Point(s) => ResColV::Point(s),
        ResModel::MultiPoint(s) => ResColV::MultiPoint(s),
        ResModel::LineString(s) => ResColV::LineString(s),
        ResModel::MultiLineString(s) => ResColV::MultiLineString(s),
        ResModel::Polygon(s) => ResColV::Polygon(s),
        ResModel::MultiPolygon(s) => ResColV::MultiPolygon(s),
    }
}

/// The number of rows a finished column holds.
pub open spec fn res_col_len(c: ResColV) -> int {
    match c {
        ResColV::Null(k) => k,
        ResColV::Scalar(s) => s.len() as int,
        ResColV::Point(s) => s.len() as int,
        ResColV::MultiPoint(s) => s.len() as int,
        ResColV::LineString(s) => s.len() as int,
        ResColV::MultiLineString(s) => s.len() as int,
        ResColV::Polygon(s) => s.len() as int,
        ResColV::MultiPolygon(s) => s.len() as int,
    }
}

/// A vector of `n` null entries.
fn null_entries<T: DeepView>(n: usize) -> (r: Vec<Option<T>>)
    ensures
        r.deep_view() == nulls::<T::V>(n as int),
{
    let mut out: Vec<Option<T>> = Vec::new();
    let mut i: usize = 0;
    while i < n
        invariant
            i <= n,
            out.deep_view() == nulls::<T::V>(i as int),
        decreases n - i,
    {
        let ghost before = out.deep_view();
        out.push(None);
        i = i + 1;
        proof {
            assert(out.deep_view() =~= before.push(None));
            assert(out.deep_view() =~= nulls::<T::V>(i as int));
        }
    }
    out
}


impl Builder {
    /// A builder with no layout fixed and nothing received.
    pub fn new() -> (b: Builder)
        ensures
            b@ == ResModel::Pending(0),
    {
        Builder::Pending(0)
    }

    /// Fix the scalar layout, settling the owed nulls.
    pub fn make_scalar(&mut self)
        requires
            old(self)@ is Pending,
        ensures
            final(self)@ == ResModel::Scalar(nulls::<u64>(old(self)@->Pending_0)),
    {
        let k: usize = match &*self {
            Builder::Pending(k) => *k,
            _ => vstd::pervasive::unreached(),
        };
        let v: Vec<Option<u64>> = null_entries(k);
        *self = Builder::Scalar(v);
    }

    /// Fix the point layout, settling the owed nulls.
    pub fn make_point(&mut self)
        requires
            old(self)@ is Pending,
        ensures
            final(self)@ == ResModel::Point(nulls::<Coord>(old(self)@->Pending_0)),
    {
        let k: usize = match &*self {
            Builder::Pending(k) => *k,
            _ => vstd::pervasive::unreached(),
        };
        let v: Vec<Option<Coord>> = null_entries(k);
        *self = Builder::Point(v);
    }

    /// Fix a list layout: multi-point, or line string (a line is
    /// stored as a two-point line string).
    pub fn make_list_arr(&mut self, geom: GeomTypes)
        requires
            old(self)@ is Pending,
            geom == GeomTypes::MultiPoint || geom == GeomTypes::Line || geom
                == GeomTypes::LineString,
        ensures
            geom == GeomTypes::MultiPoint ==> final(self)@ == ResModel::MultiPoint(
                nulls::<Seq<Coord>>(old(self)@->Pending_0),
            ),
            geom == GeomTypes::Line || geom == GeomTypes::LineString ==> final(self)@
                == ResModel::LineString(nulls::<Seq<Coord>>(old(self)@->Pending_0)),
    {
        let k: usize = match &*self {
            Builder::Pending(k) => *k,
            _ => vstd::pervasive::unreached(),
        };
        match geom {
            GeomTypes::MultiPoint => {
                let v: Vec<Option<Vec<Coord>>> = null_entries(k);
                *self = Builder::MultiPoint(v);
            },
            GeomTypes::Line | GeomTypes::LineString => {
                let v: Vec<Option<Vec<Coord>>> = null_entries(k);
                *self = Builder::LineString(v);
            },
            _ => {
                proof {
                    assert(false);
                }
            },
        }
    }

    /// Fix a list-of-lists layout: multi line string or polygon.
    pub fn make_list_list_arr(&mut self, geom: GeomTypes)
        requires
            old(self)@ is Pending,
            geom == GeomTypes::MultiLineString || geom == GeomTypes::Polygon,
        ensures
            geom == GeomTypes::MultiLineString ==> final(self)@ == ResModel::MultiLineString(
                nulls::<Seq<Seq<Coord>>>(old(self)@->Pending_0),
            ),
            geom == GeomTypes::Polygon ==> final(self)@ == ResModel::Polygon(
                nulls::<Seq<Seq<Coord>>>(old(self)@->Pending_0),
            ),
    {
        let k: usize = match &*self {
            Builder::Pending(k) => *k,
            _ => vstd::pervasive::unreached(),
        };
        match geom {
            GeomTypes::MultiLineString => {
                let v: Vec<Option<Vec<Vec<Coord>>>> = null_entries(k);
                *self = Builder::MultiLineString(v);
            },
            GeomTypes::Polygon => {
                let v: Vec<Option<Vec<Vec<Coord>>>> = null_entries(k);
                *self = Builder::Polygon(v);
            },
            _ => {
                proof {
                    assert(false);
                }
            },
        }
    }

    /// Fix the multi-polygon layout.
    pub fn new_list_list_list_arr(&mut self, geom: GeomTypes)
        requires
            old(self)@ is Pending,
            geom == GeomTypes::MultiPolygon,
        ensures
            final(self)@ == ResModel::MultiPolygon(
                nulls::<Seq<Seq<Seq<Coord>>>>(old(self)@->Pending_0),
            ),
    {
        let k: usize = match &*self {
            Builder::Pending(k) => *k,
            _ => vstd::pervasive::unreached(),
        };
        let v: Vec<Option<Vec<Vec<Vec<Coord>>>>> = null_entries(k);
        *self = Builder::MultiPolygon(v);
    }

    /// Add a null for the next row; a null fits every layout.
    pub fn add_null(&mut self) -> (r: Result<(), GeoError>)
        requires
            res_len(old(self)@) < usize::MAX,
        ensures
            res_outcome(old(self)@, final(self)@, OpResV::Null, r),
    {
        let mut cur = Builder::Pending(0);
        core::mem::swap(self, &mut cur);
        match cur {
            Builder::Pending(k) => {
                *self = Builder::Pending(k + 1);
            },
            Builder::Scalar(mut v) => {
                let ghost b = v.deep_view();
                v.push(None);
                *self = Builder::Scalar(v);
                proof {
                    assert(self@ =~~= ResModel::Scalar(b.push(None)));
                }
            },
            Builder::Point(mut v) => {
                let ghost b = v.deep_view();
                v.push(None);
                *self = Builder::Point(v);
                proof {
                    assert(self@ =~~= ResModel::Point(b.push(None)));
                }
            },
            Builder::MultiPoint(mut v) => {
                let ghost b = v.deep_view();
                v.push(None);
                *self = Builder::MultiPoint(v);
                proof {
                    assert(self@ =~~= ResModel::MultiPoint(b.push(None)));
                }
            },
            Builder::LineString(mut v) => {
                let ghost b = v.deep_view();
                v.push(None);
                *self = Builder::LineString(v);
                proof {
                    assert(self@ =~~= ResModel::LineString(b.push(None)));
                }
            },
            Builder::MultiLineString(mut v) => {
                let ghost b = v.deep_view();
                v.push(None);
                *self = Builder::MultiLineString(v);
                proof {
                    assert(self@ =~~= ResModel::MultiLineString(b.push(None)));
                }
            },
            Builder::Polygon(mut v) => {
                let ghost b = v.deep_view();
                v.push(None);
                *self = Builder::Polygon(v);
                proof {
                    assert(self@ =~~= ResModel::Polygon(b.push(None)));
                }
            },
            Builder::MultiPolygon(mut v) => {
                let ghost b = v.deep_view();
                v.push(None);
                *self = Builder::MultiPolygon(v);
                proof {
                    assert(self@ =~~= ResModel::MultiPolygon(b.push(None)));
                }
            },
        }
        Ok(())
    }

    /// Add a scalar for the next row.
    pub fn add_scalar(&mut self, p: u64) -> (r: Result<(), GeoError>)
        requires
            res_len(old(self)@) < usize::MAX,
        ensures
            res_outcome(old(self)@, final(self)@, OpResV::Float(p), r),
    {
        let mut cur = Builder::Pending(0);
        core::mem::swap(self, &mut cur);
        match cur {
            Builder::Pending(k) => {
                let mut v: Vec<Option<u64>> = null_entries(k);
                let ghost b = v.deep_view();
                v.push(Some(p));
                *self = Builder::Scalar(v);
                proof {
                    assert(self@ =~~= ResModel::Scalar(b.push(Some(p))));
                }
                Ok(())
            },
            Builder::Scalar(mut v) => {
                let ghost b = v.deep_view();
                v.push(Some(p));
                *self = Builder::Scalar(v);
                proof {
                    assert(self@ =~~= ResModel::Scalar(b.push(Some(p))));
                }
                Ok(())
            },
            other => {
                *self = other;
                Err(GeoError::IncompatibleResultType)
            },
        }
    }

    /// Add a point for the next row.
    pub fn add_point(&mut self, p: Coord) -> (r: Result<(), GeoError>)
        requires
            res_len(old(self)@) < usize::MAX,
        ensures
            res_outcome(old(self)@, final(self)@, OpResV::Point(p), r),
    {
        let mut cur = Builder::Pending(0);
        core::mem::swap(self, &mut cur);
        match cur {
            Builder::Pending(k) => {
                let mut v: Vec<Option<Coord>> = null_entries(k);
                let ghost b = v.deep_view();
                v.push(Some(p));
                *self = Builder::Point(v);
                proof {
                    assert(self@ =~~= ResModel::Point(b.push(Some(p))));
                }
                Ok(())
            },
            Builder::Point(mut v) => {
                let ghost b = v.deep_view();
                v.push(Some(p));
                *self = Builder::Point(v);
                proof {
                    assert(self@ =~~= ResModel::Point(b.push(Some(p))));
                }
                Ok(())
            },
            other => {
                *self = other;
                Err(GeoError::IncompatibleResultType)
            },
        }
    }

    /// Add a multi-point for the next row.
    pub fn add_multipoint(&mut self, p: Vec<Coord>) -> (r: Result<(), GeoError>)
        requires
            res_len(old(self)@) < usize::MAX,
        ensures
            res_outcome(old(self)@, final(self)@, OpResV::MultiPoint(p.deep_view()), r),
    {
        let ghost pv = p.deep_view();
        let mut cur = Builder::Pending(0);
        core::mem::swap(self, &mut cur);
        match cur {
            Builder::Pending(k) => {
                let mut v: Vec<Option<Vec<Coord>>> = null_entries(k);
                let ghost b = v.deep_view();
                v.push(Some(p));
                *self = Builder::MultiPoint(v);
                proof {
                    assert(self@ =~~= ResModel::MultiPoint(b.push(Some(pv))));
                }
                Ok(())
            },
            Builder::MultiPoint(mut v) => {
                let ghost b = v.deep_view();
                v.push(Some(p));
                *self = Builder::MultiPoint(v);
                proof {
                    assert(self@ =~~= ResModel::MultiPoint(b.push(Some(pv))));
                }
                Ok(())
            },
            other => {
                *self = other;
                Err(GeoError::IncompatibleResultType)
            },
        }
    }

    /// Add a two-point segment for the next row; it is stored as a
    /// line string.
    pub fn add_line(&mut self, start: Coord, end: Coord) -> (r: Result<(), GeoError>)
        requires
            res_len(old(self)@) < usize::MAX,
        ensures
            res_outcome(old(self)@, final(self)@, OpResV::Line(start, end), r),
    {
        let mut p: Vec<Coord> = Vec::new();
        p.push(start);
        p.push(end);
        proof {
            assert(p.deep_view() =~= seq![start, end]);
        }
        let ghost pv = p.deep_view();
        let mut cur = Builder::Pending(0);
        core::mem::swap(self, &mut cur);
        match cur {
            Builder::Pending(k) => {
                let mut v: Vec<Option<Vec<Coord>>> = null_entries(k);
                let ghost b = v.deep_view();
                v.push(Some(p));
                *self = Builder::LineString(v);
                proof {
                    assert(self@ =~~= ResModel::LineString(b.push(Some(pv))));
                }
                Ok(())
            },
            Builder::LineString(mut v) => {
                let ghost b = v.deep_view();
                v.push(Some(p));
                *self = Builder::LineString(v);
                proof {
                    assert(self@ =~~= ResModel::LineString(b.push(Some(pv))));
                }
                Ok(())
            },
            other => {
                *self = other;
                Err(GeoError::IncompatibleResultType)
            },
        }
    }

    /// Add a line string for the next row.
    pub fn add_linestring(&mut self, p: Vec<Coord>) -> (r: Result<(), GeoError>)
        requires
            res_len(old(self)@) < usize::MAX,
        ensures
            res_outcome(old(self)@, final(self)@, OpResV::LineString(p.deep_view()), r),
    {
        let ghost pv = p.deep_view();
        let mut cur = Builder::Pending(0);
        core::mem::swap(self, &mut cur);
        match cur {
            Builder::Pending(k) => {
                let mut v: Vec<Option<Vec<Coord>>> = null_entries(k);
                let ghost b = v.deep_view();
                v.push(Some(p));
                *self = Builder::LineString(v);
                proof {
                    assert(self@ =~~= ResModel::LineString(b.push(Some(pv))));
                }
                Ok(())
            },
            Builder::LineString(mut v) => {
                let ghost b = v.deep_view();
                v.push(Some(p));
                *self = Builder::LineString(v);
                proof {
                    assert(self@ =~~= ResModel::LineString(b.push(Some(pv))));
                }
                Ok(())
            },
            other => {
                *self = other;
                Err(GeoError::IncompatibleResultType)
            },
        }
    }

    /// Add a multi line string for the next row.
    pub fn add_multi_line_string(&mut self, p: Vec<Vec<Coord>>) -> (r: Result<(), GeoError>)
        requires
            res_len(old(self)@) < usize::MAX,
        ensures
            res_outcome(old(self)@, final(self)@, OpResV::MultiLineString(p.deep_view()), r),
    {
        let ghost pv = p.deep_view();
        let mut cur = Builder::Pending(0);
        core::mem::swap(self, &mut cur);
        match cur {
            Builder::Pending(k) => {
                let mut v: Vec<Option<Vec<Vec<Coord>>>> = null_entries(k);
                let ghost b = v.deep_view();
                v.push(Some(p));
                *self = Builder::MultiLineString(v);
                proof {
                    assert(self@ =~~= ResModel::MultiLineString(b.push(Some(pv))));
                }
                Ok(())
            },
            Builder::MultiLineString(mut v) => {
                let ghost b = v.deep_view();
                v.push(Some(p));
                *self = Builder::MultiLineString(v);
                proof {
                    assert(self@ =~~= ResModel::MultiLineString(b.push(Some(pv))));
                }
                Ok(())
            },
            other => {
                *self = other;
                Err(GeoError::IncompatibleResultType)
            },
        }
    }

    /// Add a polygon for the next row; it is stored as its ring list,
    /// exterior first.
    pub fn add_polygon(&mut self, p: PolygonGeom) -> (r: Result<(), GeoError>)
        requires
            res_len(old(self)@) < usize::MAX,
        ensures
            res_outcome(old(self)@, final(self)@, OpResV::Polygon(p.deep_view()), r),
    {
        let ghost pv = p.deep_view();
        let rings = crate::encode::polygon_rings(p);
        let mut cur = Builder::Pending(0);
        core::mem::swap(self, &mut cur);
        match cur {
            Builder::Pending(k) => {
                let mut v: Vec<Option<Vec<Vec<Coord>>>> = null_entries(k);
                let ghost b = v.deep_view();
                v.push(Some(rings));
                *self = Builder::Polygon(v);
                proof {
                    assert(self@ =~~= ResModel::Polygon(b.push(Some(rings_of(pv)))));
                }
                Ok(())
            },
            Builder::Polygon(mut v) => {
                let ghost b = v.deep_view();
                v.push(Some(rings));
                *self = Builder::Polygon(v);
                proof {
                    assert(self@ =~~= ResModel::Polygon(b.push(Some(rings_of(pv)))));
                }
                Ok(())
            },
            other => {
                *self = other;
                Err(GeoError::IncompatibleResultType)
            },
        }
    }

    /// Add a multi polygon for the next row.
    pub fn add_multi_polygon(&mut self, p: Vec<PolygonGeom>) -> (r: Result<(), GeoError>)
        requires
            res_len(old(self)@) < usize::MAX,
        ensures
            res_outcome(old(self)@, final(self)@, OpResV::MultiPolygon(p.deep_view()), r),
    {
        let ghost pv = p.deep_view();
        let payload = crate::encode::polygons_rings(p);
        let mut cur = Builder::Pending(0);
        core::mem::swap(self, &mut cur);
        match cur {
            Builder::Pending(k) => {
                let mut v: Vec<Option<Vec<Vec<Vec<Coord>>>>> = null_entries(k);
                let ghost b = v.deep_view();
                v.push(Some(payload));
                *self = Builder::MultiPolygon(v);
                proof {
                    assert(self@ =~~= ResModel::MultiPolygon(b.push(Some(polys_rings(pv)))));
                }
                Ok(())
            },
            Builder::MultiPolygon(mut v) => {
                let ghost b = v.deep_view();
                v.push(Some(payload));
                *self = Builder::MultiPolygon(v);
                proof {
                    assert(self@ =~~= ResModel::MultiPolygon(b.push(Some(polys_rings(pv)))));
                }
                Ok(())
            },
            other => {
                *self = other;
                Err(GeoError::IncompatibleResultType)
            },
        }
    }

    /// Add one computed output for the next row, whatever it is.
    pub fn add(&mut self, value: GeomOpResult) -> (r: Result<(), GeoError>)
        requires
            res_len(old(self)@) < usize::MAX,
        ensures
            res_outcome(old(self)@, final(self)@, value.deep_view(), r),
    {
        match value {
            GeomOpResult::Null => self.add_null(),
            GeomOpResult::Point(p) => self.add_point(p),
            GeomOpResult::MultiPoint(ps) => self.add_multipoint(ps),
            GeomOpResult::Line(a, b) => self.add_line(a, b),
            GeomOpResult::LineString(l) => self.add_linestring(l),
            GeomOpResult::MultiLineString(ml) => self.add_multi_line_string(ml),
            GeomOpResult::Polygon(p) => self.add_polygon(p),
            GeomOpResult::MultiPolygon(mp) => self.add_multi_polygon(mp),
            GeomOpResult::Float(x) => self.add_scalar(x),
        }
    }

    /// Seal the builder and hand the column out; a builder that never
    /// saw a non-null value yields a column of nulls with no layout.
    pub fn finish(self) -> (c: ResultColumn)
        ensures
            c@ == res_finish(self@),
    {
        match self {
            Builder::Pending(k) => ResultColumn::Null(k),
            Builder::Scalar(v) => ResultColumn::Scalar(VariantColumn::from_entries(v)),
            Builder::Point(v) => ResultColumn::Point(VariantColumn::from_entries(v)),
            Builder::MultiPoint(v) => ResultColumn::MultiPoint(VariantColumn::from_entries(v)),
            Builder::LineString(v) => ResultColumn::LineString(VariantColumn::from_entries(v)),
            Builder::MultiLineString(v) => ResultColumn::MultiLineString(
                VariantColumn::from_entries(v),
            ),
            Builder::Polygon(v) => ResultColumn::Polygon(VariantColumn::from_entries(v)),
            Builder::MultiPolygon(v) => ResultColumn::MultiPolygon(VariantColumn::from_entries(v)),
        }
    }
}

} // verus!
