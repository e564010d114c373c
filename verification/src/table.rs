use vstd::prelude::*;

use crate::GeoError;
use crate::encode::{entries3_have_exteriors, entries_have_exteriors};
use crate::geom::Coord;
use crate::variant::VariantColumn;

verus! {

/// Mathematical value of a `ColumnarGeometryTable`: for each geometry
/// kind, either no column at all (the kind was never observed) or one
/// entry per row; two attribute columns; and the shared row count.
#[verifier::ext_equal]
pub struct TableModel {
    pub point: Option<Seq<Option<Coord>>>,
    pub multi_point: Option<Seq<Option<Seq<Coord>>>>,
    pub line_string: Option<Seq<Option<Seq<Coord>>>>,
    pub multi_line_string: Option<Seq<Option<Seq<Seq<Coord>>>>>,
    pub polygon: Option<Seq<Option<Seq<Seq<Coord>>>>>,
    pub multi_polygon: Option<Seq<Option<Seq<Seq<Seq<Coord>>>>>>,
    pub name: Seq<Option<Seq<char>>>,
    pub description: Seq<Option<Seq<char>>>,
    pub row_count: int,
}

impl TableModel {
    /// Every present column has exactly `row_count` entries, and every
    /// polygon-shaped entry carries its exterior ring.
    pub open spec fn wf(self) -> bool {
        &&& 0 <= self.row_count
        &&& (self.point matches Some(c) ==> c.len() == self.row_count)
        &&& (self.multi_point matches Some(c) ==> c.len() == self.row_count)
        &&& (self.line_string matches Some(c) ==> c.len() == self.row_count)
        &&& (self.multi_line_string matches Some(c) ==> c.len() == self.row_count)
        &&& (self.polygon matches Some(c) ==> c.len() == self.row_count
            && entries_have_exteriors(c))
        &&& (self.multi_polygon matches Some(c) ==> c.len() == self.row_count
            && entries3_have_exteriors(c))
        &&& self.name.len() == self.row_count
        &&& self.description.len() == self.row_count
    }
}

/// The model of an optional column.
pub open spec fn col_view<T: DeepView>(c: Option<VariantColumn<T>>) -> Option<
    Seq<Option<T::V>>,
> {
    match c {
        Some(col) => Some(col@),
        None => None,
    }
}

/// The finished, immutable columnar table: a sparse set of variant
/// columns (one per geometry kind observed in the input), the two
/// attribute columns, and the shared row count.
pub struct ColumnarGeometryTable {
    point: Option<VariantColumn<Coord>>,
    multi_point: Option<VariantColumn<Vec<Coord>>>,
    line_string: Option<VariantColumn<Vec<Coord>>>,
    multi_line_string: Option<VariantColumn<Vec<Vec<Coord>>>>,
    polygon: Option<VariantColumn<Vec<Vec<Coord>>>>,
    multi_polygon: Option<VariantColumn<Vec<Vec<Vec<Coord>>>>>,
    name: VariantColumn<String>,
    description: VariantColumn<String>,
    row_count: usize,
}

impl View for ColumnarGeometryTable {
    type V = TableModel;

    closed spec fn view(&self) -> TableModel {
        TableModel {
            point: col_view(self.point),
            multi_point: col_view(self.multi_point),
            line_string: col_view(self.line_string),
            multi_line_string: col_view(self.multi_line_string),
            polygon: col_view(self.polygon),
            multi_polygon: col_view(self.multi_polygon),
            name: self.name@,
            description: self.description@,
            row_count: self.row_count as int,
        }
    }
}

impl ColumnarGeometryTable {
    /// Assemble a table from columns already known to agree on the
    /// row count.
    #[verifier::spinoff_prover]
    pub (crate) fn assemble(
        point: Option<VariantColumn<Coord>>,
        multi_point: Option<VariantColumn<Vec<Coord>>>,
        line_string: Option<VariantColumn<Vec<Coord>>>,
        multi_line_string: Option<VariantColumn<Vec<Vec<Coord>>>>,
        polygon: Option<VariantColumn<Vec<Vec<Coord>>>>,
        multi_polygon: Option<VariantColumn<Vec<Vec<Vec<Coord>>>>>,
        name: VariantColumn<String>,
        description: VariantColumn<String>,
        row_count: usize,
    ) -> (t: ColumnarGeometryTable)
        requires
            (col_view(point) matches Some(c) ==> c.len() == row_count),
            (col_view(multi_point) matches Some(c) ==> c.len() == row_count),
            (col_view(line_string) matches Some(c) ==> c.len() == row_count),
            (col_view(multi_line_string) matches Some(c) ==> c.len() == row_count),
            (col_view(polygon) matches Some(c) ==> c.len() == row_count
                && entries_have_exteriors(c)),
            (col_view(multi_polygon) matches Some(c) ==> c.len() == row_count
                && entries3_have_exteriors(c)),
            name@.len() == row_count,
            description@.len() == row_count,
        ensures
            t@ == (TableModel {
                point: col_view(point),
                multi_point: col_view(multi_point),
                line_string: col_view(line_string),
                multi_line_string: col_view(multi_line_string),
                polygon: col_view(polygon),
                multi_polygon: col_view(multi_polygon),
                name: name@,
                description: description@,
                row_count: row_count as int,
            }),
            t@.wf(),
    {
        let t = ColumnarGeometryTable {
            point,
            multi_point,
            line_string,
            multi_line_string,
            polygon,
            multi_polygon,
            name,
            description,
            row_count,
        };
        t
    }

    /// The number of rows of the table.
    pub fn row_count(&self) -> (n: usize)
        ensures
            n == self@.row_count,
    {
        self.row_count
    }

    /// The point column, if any point was observed.
    pub fn point_column(&self) -> (c: &Option<VariantColumn<Coord>>)
        ensures
            col_view(*c) == self@.point,
    {
        &self.point
    }

    /// The multi-point column, if any.
    pub fn multi_point_column(&self) -> (c: &Option<VariantColumn<Vec<Coord>>>)
        ensures
            col_view(*c) == self@.multi_point,
    {
        &self.multi_point
    }

    /// The line-string column, if any.
    pub fn line_string_column(&self) -> (c: &Option<VariantColumn<Vec<Coord>>>)
        ensures
            col_view(*c) == self@.line_string,
    {
        &self.line_string
    }

    /// The multi-line-string column, if any.
    pub fn multi_line_string_column(&self) -> (c: &Option<VariantColumn<Vec<Vec<Coord>>>>)
        ensures
            col_view(*c) == self@.multi_line_string,
    {
        &self.multi_line_string
    }

    /// The polygon column, if any.
    pub fn polygon_column(&self) -> (c: &Option<VariantColumn<Vec<Vec<Coord>>>>)
        ensures
            col_view(*c) == self@.polygon,
    {
        &self.polygon
    }

    /// The multi-polygon column, if any.
    pub fn multi_polygon_column(&self) -> (c: &Option<VariantColumn<Vec<Vec<Vec<Coord>>>>>)
        ensures
            col_view(*c) == self@.multi_polygon,
    {
        &self.multi_polygon
    }

    /// The per-row name attribute column.
    pub fn names(&self) -> (c: &VariantColumn<String>)
        ensures
            c@ == self@.name,
    {
        &self.name
    }

    /// The per-row description attribute column.
    pub fn descriptions(&self) -> (c: &VariantColumn<String>)
        ensures
            c@ == self@.description,
    {
        &self.description
    }
}


/// Whether every polygon entry of the column carries its exterior
/// ring.
fn polygon_entries_ok(col: &VariantColumn<Vec<Vec<Coord>>>) -> (r: bool)
    ensures
        r == entries_have_exteriors(col@),
{
    let n = col.len();
    let mut i: usize = 0;
    while i < n
        invariant
            n == col@.len(),
            i <= n,
            forall|j: int| 0 <= j < i && col@[j] is Some ==> (#[trigger] col@[j])->0.len() >= 1,
        decreases n - i,
    {
        match col.get(i) {
            Some(rings) => {
                if rings.len() == 0 {
                    proof {
                        assert(col@[i as int] is Some && col@[i as int]->0.len() == 0);
                    }
                    return false;
                }
            },
            None => {},
        }
        i = i + 1;
    }
    true
}

/// Whether every polygon of every multi-polygon entry carries its
/// exterior ring.
fn multi_polygon_entries_ok(col: &VariantColumn<Vec<Vec<Vec<Coord>>>>) -> (r: bool)
    ensures
        r == entries3_have_exteriors(col@),
{
    let n = col.len();
    let mut i: usize = 0;
    while i < n
        invariant
            n == col@.len(),
            i <= n,
            forall|j: int, k: int|
                0 <= j < i && col@[j] is Some && 0 <= k < col@[j]->0.len() ==> (
                #[trigger] col@[j]->0[k]).len() >= 1,
        decreases n - i,
    {
        match col.get(i) {
            Some(entry) => {
                let m = entry.len();
                let mut k: usize = 0;
                while k < m
                    invariant
                        (i as int) < col@.len(),
                        m == entry.deep_view().len(),
                        entry.deep_view() == col@[i as int]->0,
                        col@[i as int] is Some,
                        k <= m,
                        forall|q: int|
                            0 <= q < k ==> (#[trigger] col@[i as int]->0[q]).len() >= 1,
                    decreases m - k,
                {
                    proof {
                        assert(entry@[k as int].deep_view() == col@[i as int]->0[k as int]);
                    }
                    if entry[k].len() == 0 {
                        proof {
                            assert(col@[i as int] is Some);
                            assert(col@[i as int]->0[k as int].len() == 0);
                            assert(!entries3_have_exteriors(col@)) by {
                                assert(0 <= i as int && (i as int) < col@.len());
                                assert(col@[i as int] is Some);
                                assert(0 <= k as int && (k as int) < col@[i as int]->0.len());
                                assert(!(col@[i as int]->0[k as int].len() >= 1));
                            }
                        }
                        return false;
                    }
                    k = k + 1;
                }
            },
            None => {},
        }
        i = i + 1;
    }
    true
}

/// Whether every present column of the prospective table has exactly
/// `row_count` entries.
pub open spec fn columns_len_ok(
    point: Option<Seq<Option<Coord>>>,
    multi_point: Option<Seq<Option<Seq<Coord>>>>,
    line_string: Option<Seq<Option<Seq<Coord>>>>,
    multi_line_string: Option<Seq<Option<Seq<Seq<Coord>>>>>,
    polygon: Option<Seq<Option<Seq<Seq<Coord>>>>>,
    multi_polygon: Option<Seq<Option<Seq<Seq<Seq<Coord>>>>>>,
    name: Seq<Option<Seq<char>>>,
    description: Seq<Option<Seq<char>>>,
    row_count: int,
) -> bool {
    &&& (point matches Some(c) ==> c.len() == row_count)
    &&& (multi_point matches Some(c) ==> c.len() == row_count)
    &&& (line_string matches Some(c) ==> c.len() == row_count)
    &&& (multi_line_string matches Some(c) ==> c.len() == row_count)
    &&& (polygon matches Some(c) ==> c.len() == row_count)
    &&& (multi_polygon matches Some(c) ==> c.len() == row_count)
    &&& name.len() == row_count
    &&& description.len() == row_count
}

/// Whether every polygon-shaped entry of the prospective table
/// carries its exterior ring.
pub open spec fn columns_exteriors_ok(
    polygon: Option<Seq<Option<Seq<Seq<Coord>>>>>,
    multi_polygon: Option<Seq<Option<Seq<Seq<Seq<Coord>>>>>>,
) -> bool {
    &&& (polygon matches Some(c) ==> entries_have_exteriors(c))
    &&& (multi_polygon matches Some(c) ==> entries3_have_exteriors(c))
}

impl ColumnarGeometryTable {
    /// Build a table from externally supplied columns, checking what
    /// the encoder would have guaranteed: a present column whose
    /// length disagrees with the row count is refused as
    /// `InvalidState`; a polygon-shaped entry without its exterior
    /// ring cannot come from this codec and is refused as corruption,
    /// `UnsupportedGeometryKind`.
    pub fn from_columns(
        point: Option<VariantColumn<Coord>>,
        multi_point: Option<VariantColumn<Vec<Coord>>>,
        line_string: Option<VariantColumn<Vec<Coord>>>,
        multi_line_string: Option<VariantColumn<Vec<Vec<Coord>>>>,
        polygon: Option<VariantColumn<Vec<Vec<Coord>>>>,
        multi_polygon: Option<VariantColumn<Vec<Vec<Vec<Coord>>>>>,
        name: VariantColumn<String>,
        description: VariantColumn<String>,
        row_count: usize,
    ) -> (r: Result<ColumnarGeometryTable, GeoError>)
        ensures
            !columns_len_ok(
                col_view(point),
                col_view(multi_point),
                col_view(line_string),
                col_view(multi_line_string),
                col_view(polygon),
                col_view(multi_polygon),
                name@,
                description@,
                row_count as int,
            ) ==> r == Err::<ColumnarGeometryTable, GeoError>(GeoError::InvalidState),
            columns_len_ok(
                col_view(point),
                col_view(multi_point),
                col_view(line_string),
                col_view(multi_line_string),
                col_view(polygon),
                col_view(multi_polygon),
                name@,
                description@,
                row_count as int,
            ) && !columns_exteriors_ok(col_view(polygon), col_view(multi_polygon)) ==> r
                == Err::<ColumnarGeometryTable, GeoError>(GeoError::UnsupportedGeometryKind),
            columns_len_ok(
                col_view(point),
                col_view(multi_point),
                col_view(line_string),
                col_view(multi_line_string),
                col_view(polygon),
                col_view(multi_polygon),
                name@,
                description@,
                row_count as int,
            ) && columns_exteriors_ok(col_view(polygon), col_view(multi_polygon)) ==> r is Ok
                && r->Ok_0@ == (TableModel {
                point: col_view(point),
                multi_point: col_view(multi_point),
                line_string: col_view(line_string),
                multi_line_string: col_view(multi_line_string),
                polygon: col_view(polygon),
                multi_polygon: col_view(multi_polygon),
                name: name@,
                description: description@,
                row_count: row_count as int,
            }) && r->Ok_0@.wf(),
    {
        let len_ok = (match &point {
            Some(c) => c.len() == row_count,
            None => true,
        }) && (match &multi_point {
            Some(c) => c.len() == row_count,
            None => true,
        }) && (match &line_string {
            Some(c) => c.len() == row_count,
            None => true,
        }) && (match &multi_line_string {
            Some(c) => c.len() == row_count,
            None => true,
        }) && (match &polygon {
            Some(c) => c.len() == row_count,
            None => true,
        }) && (match &multi_polygon {
            Some(c) => c.len() == row_count,
            None => true,
        }) && name.len() == row_count && description.len() == row_count;
        if !len_ok {
            return Err(GeoError::InvalidState);
        }
        let ext_ok = (match &polygon {
            Some(c) => polygon_entries_ok(c),
            None => true,
        }) && (match &multi_polygon {
            Some(c) => multi_polygon_entries_ok(c),
            None => true,
        });
        if !ext_ok {
            return Err(GeoError::UnsupportedGeometryKind);
        }
        Ok(
            ColumnarGeometryTable {
                point,
                multi_point,
                line_string,
                multi_line_string,
                polygon,
                multi_polygon,
                name,
                description,
                row_count,
            },
        )
    }
}

} // verus!
