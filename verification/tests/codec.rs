use geopl::GeoError;
use geopl::encode::Builders;
use geopl::geom::{Coord, Geometry, PolygonGeom};
use geopl::table::ColumnarGeometryTable;
use geopl::variant::{BuilderState, VariantBuilder, VariantColumn};

fn c(x: f64, y: f64) -> Coord {
    Coord {
        x: x.to_bits(),
        y: y.to_bits(),
    }
}

fn ring(pts: &[(f64, f64)]) -> Vec<Coord> {
    pts.iter().map(|&(x, y)| c(x, y)).collect()
}

#[test]
fn point_round_trip() {
    let mut b = Builders::new();
    b.encode_value(Some(Geometry::Point(c(1.0, 2.0))), true).unwrap();
    let t = b.finish_geometry().unwrap();
    assert_eq!(t.row_count(), 1);
    let g = t.get_row(0);
    assert_eq!(g, Some(Geometry::Point(c(1.0, 2.0))));
}

#[test]
fn polygon_orientation_normalized_at_decode() {
    // Exterior stored clockwise, interior stored counter-clockwise:
    // decoding must hand back a counter-clockwise exterior and a
    // clockwise interior, i.e. both rings reversed.
    let cw_exterior = ring(&[(0.0, 0.0), (0.0, 4.0), (4.0, 4.0), (4.0, 0.0), (0.0, 0.0)]);
    let ccw_interior = ring(&[(1.0, 1.0), (2.0, 1.0), (2.0, 2.0), (1.0, 2.0), (1.0, 1.0)]);
    let mut b = Builders::new();
    b.encode_value(
        Some(Geometry::Polygon(PolygonGeom {
            exterior: cw_exterior.clone(),
            interiors: vec![ccw_interior.clone()],
        })),
        true,
    )
    .unwrap();
    let t = b.finish_geometry().unwrap();
    let decoded = t.get_row(0).unwrap();
    let mut expected_exterior = cw_exterior.clone();
    expected_exterior.reverse();
    let mut expected_interior = ccw_interior.clone();
    expected_interior.reverse();
    assert_eq!(
        decoded,
        Geometry::Polygon(PolygonGeom {
            exterior: expected_exterior,
            interiors: vec![expected_interior],
        })
    );
}

#[test]
fn polygon_stored_canonically_kept_as_is() {
    // Already counter-clockwise exterior: decoding keeps it.
    let ccw = ring(&[(0.0, 0.0), (4.0, 0.0), (4.0, 4.0), (0.0, 4.0), (0.0, 0.0)]);
    let mut b = Builders::new();
    b.encode_value(
        Some(Geometry::Polygon(PolygonGeom {
            exterior: ccw.clone(),
            interiors: vec![],
        })),
        true,
    )
    .unwrap();
    let t = b.finish_geometry().unwrap();
    assert_eq!(
        t.get_row(0).unwrap(),
        Geometry::Polygon(PolygonGeom {
            exterior: ccw,
            interiors: vec![],
        })
    );
}

#[test]
fn collection_of_three_points_collapses_to_multi_point() {
    let pts = vec![c(1.0, 1.0), c(2.0, 2.0), c(3.0, 3.0)];
    let members: Vec<Geometry> = pts.iter().map(|p| Geometry::Point(*p)).collect();
    let mut b = Builders::new();
    b.encode_value(Some(Geometry::Collection(members)), true).unwrap();
    let t = b.finish_geometry().unwrap();
    // exactly one populated variant column
    assert!(t.point_column().is_none());
    assert!(t.line_string_column().is_none());
    assert!(t.multi_line_string_column().is_none());
    assert!(t.polygon_column().is_none());
    assert!(t.multi_polygon_column().is_none());
    let col = t.multi_point_column().as_ref().unwrap();
    assert_eq!(col.len(), 1);
    assert_eq!(col.get(0), &Some(pts.clone()));
    // decoding returns the three points in original order
    assert_eq!(t.get_row(0), Some(Geometry::MultiPoint(pts)));
}

#[test]
fn heterogeneous_fan_out() {
    let p = c(1.0, 2.0);
    let l = ring(&[(0.0, 0.0), (5.0, 5.0)]);
    let mut b = Builders::new();
    b.encode_value(
        Some(Geometry::Collection(vec![
            Geometry::LineString(l.clone()),
            Geometry::Point(p),
        ])),
        true,
    )
    .unwrap();
    let t = b.finish_geometry().unwrap();
    // exactly two variant columns, each non-null at row 0
    let pc = t.point_column().as_ref().unwrap();
    let lc = t.line_string_column().as_ref().unwrap();
    assert!(!pc.is_null(0));
    assert!(!lc.is_null(0));
    assert!(t.multi_point_column().is_none());
    assert!(t.multi_line_string_column().is_none());
    assert!(t.polygon_column().is_none());
    assert!(t.multi_polygon_column().is_none());
    // decoding returns a collection of both, point first
    assert_eq!(
        t.get_row(0),
        Some(Geometry::Collection(vec![
            Geometry::Point(p),
            Geometry::LineString(l),
        ]))
    );
}

#[test]
fn null_rows_advance_row_count() {
    let mut b = Builders::new();
    b.encode_value(Some(Geometry::Point(c(1.0, 1.0))), true).unwrap();
    b.encode_value(None, true).unwrap();
    b.encode_value(Some(Geometry::Collection(vec![])), true).unwrap();
    let t = b.finish_geometry().unwrap();
    assert_eq!(t.row_count(), 3);
    let pc = t.point_column().as_ref().unwrap();
    assert_eq!(pc.len(), 3);
    assert!(!pc.is_null(0));
    assert!(pc.is_null(1));
    assert!(pc.is_null(2));
    assert_eq!(t.get_row(1), None);
    assert_eq!(t.get_row(2), None);
}

#[test]
fn sparse_schema_from_point_inputs() {
    let mut b = Builders::new();
    for i in 0..3 {
        let v = i as f64;
        b.encode_value(Some(Geometry::Point(c(v, v))), true).unwrap();
    }
    let t = b.finish_geometry().unwrap();
    assert_eq!(t.row_count(), 3);
    assert!(t.point_column().is_some());
    assert!(t.multi_point_column().is_none());
    assert!(t.line_string_column().is_none());
    assert!(t.multi_line_string_column().is_none());
    assert!(t.polygon_column().is_none());
    assert!(t.multi_polygon_column().is_none());
    for i in 0..3 {
        let v = i as f64;
        assert_eq!(t.get_row(i), Some(Geometry::Point(c(v, v))));
    }
}

#[test]
fn nested_collections_are_flattened() {
    let inner = Geometry::Collection(vec![Geometry::Point(c(1.0, 1.0))]);
    let outer = Geometry::Collection(vec![inner, Geometry::Point(c(2.0, 2.0))]);
    let mut b = Builders::new();
    b.encode_value(Some(outer), true).unwrap();
    let t = b.finish_geometry().unwrap();
    // two points on one row collapse to one multi-point entry
    assert_eq!(
        t.get_row(0),
        Some(Geometry::MultiPoint(vec![c(1.0, 1.0), c(2.0, 2.0)]))
    );
}

#[test]
fn single_member_collection_is_that_member() {
    let mut b = Builders::new();
    b.encode_value(
        Some(Geometry::Collection(vec![Geometry::Point(c(7.0, 8.0))])),
        true,
    )
    .unwrap();
    let t = b.finish_geometry().unwrap();
    assert!(t.point_column().is_some());
    assert!(t.multi_point_column().is_none());
    assert_eq!(t.get_row(0), Some(Geometry::Point(c(7.0, 8.0))));
}

#[test]
fn variant_builder_pads_and_seals() {
    let mut vb: VariantBuilder<Coord> = VariantBuilder::new();
    assert!(matches!(vb.state(), BuilderState::Uninitialized));
    vb.append(c(1.0, 1.0), 2).unwrap();
    assert!(matches!(vb.state(), BuilderState::Active));
    assert_eq!(vb.cursor(), 3);
    let col = vb.finish(5).unwrap();
    assert_eq!(col.len(), 5);
    assert_eq!(col.get(0), &None);
    assert_eq!(col.get(1), &None);
    assert_eq!(col.get(2), &Some(c(1.0, 1.0)));
    assert_eq!(col.get(3), &None);
    assert_eq!(col.get(4), &None);
    // sealed: further appends and finishes fail
    assert_eq!(vb.append(c(2.0, 2.0), 5), Err(GeoError::InvalidState));
    assert!(matches!(vb.finish(5), Err(GeoError::InvalidState)));
}

#[test]
fn finish_twice_is_invalid_state() {
    let mut b = Builders::new();
    b.encode_value(Some(Geometry::Point(c(0.0, 0.0))), true).unwrap();
    let _ = b.finish_geometry().unwrap();
    assert!(matches!(b.finish_geometry(), Err(GeoError::InvalidState)));
}

#[test]
fn finish_with_staged_row_is_invalid_state() {
    let mut b = Builders::new();
    b.add_point(c(0.0, 0.0), false).unwrap();
    assert!(matches!(b.finish_geometry(), Err(GeoError::InvalidState)));
}

#[test]
fn same_kind_twice_per_row_is_schema_conflict() {
    let mut b = Builders::new();
    b.encode_value(Some(Geometry::Point(c(0.0, 0.0))), false).unwrap();
    assert_eq!(
        b.encode_value(Some(Geometry::Point(c(1.0, 1.0))), true),
        Err(GeoError::SchemaConflict)
    );
    // the refused record changed nothing: the row can still be completed
    b.encode_value(Some(Geometry::LineString(ring(&[(0.0, 0.0), (1.0, 0.0)]))), true)
        .unwrap();
    let t = b.finish_geometry().unwrap();
    assert_eq!(t.row_count(), 1);
}

#[test]
fn malformed_coordinate_becomes_null_with_warning() {
    let mut b = Builders::new();
    b.encode_value(Some(Geometry::Point(c(f64::NAN, 1.0))), true).unwrap();
    let t_warnings: Vec<_> = b.warnings().iter().map(|w| (w.kind, w.row)).collect();
    assert_eq!(t_warnings, vec![(GeoError::MalformedCoordinate, 0)]);
    let t = b.finish_geometry().unwrap();
    assert_eq!(t.row_count(), 1);
    let pc = t.point_column().as_ref().unwrap();
    assert!(pc.is_null(0));
    assert_eq!(t.get_row(0), None);
}

#[test]
fn unsupported_member_in_mixed_collection_is_dropped_with_warning() {
    let mut b = Builders::new();
    b.encode_value(
        Some(Geometry::Collection(vec![
            Geometry::MultiPoint(vec![c(9.0, 9.0)]),
            Geometry::Point(c(1.0, 1.0)),
            Geometry::Point(c(2.0, 2.0)),
        ])),
        true,
    )
    .unwrap();
    assert_eq!(b.warnings().len(), 1);
    assert_eq!(b.warnings()[0].kind, GeoError::UnsupportedGeometryKind);
    let t = b.finish_geometry().unwrap();
    assert_eq!(
        t.get_row(0),
        Some(Geometry::MultiPoint(vec![c(1.0, 1.0), c(2.0, 2.0)]))
    );
}

#[test]
fn attributes_attach_to_their_row() {
    let mut b = Builders::new();
    b.add_name(Some("alpha".to_string())).unwrap();
    b.encode_value(Some(Geometry::Point(c(0.0, 0.0))), true).unwrap();
    b.add_description(Some("beta".to_string())).unwrap();
    b.encode_value(None, true).unwrap();
    let t = b.finish_geometry().unwrap();
    assert_eq!(t.names().len(), 2);
    assert_eq!(t.names().get(0), &Some("alpha".to_string()));
    assert_eq!(t.names().get(1), &None);
    assert_eq!(t.descriptions().get(0), &None);
    assert_eq!(t.descriptions().get(1), &Some("beta".to_string()));
}

#[test]
fn second_name_for_one_row_is_schema_conflict() {
    let mut b = Builders::new();
    b.add_name(Some("one".to_string())).unwrap();
    assert_eq!(
        b.add_name(Some("two".to_string())),
        Err(GeoError::SchemaConflict)
    );
}

#[test]
fn from_columns_checks_lengths() {
    let mut vb: VariantBuilder<Coord> = VariantBuilder::new();
    vb.append(c(0.0, 0.0), 0).unwrap();
    let short = vb.finish(1).unwrap();
    let mut names: VariantBuilder<String> = VariantBuilder::new_active();
    let name_col = names.finish(2).unwrap();
    let mut descs: VariantBuilder<String> = VariantBuilder::new_active();
    let desc_col = descs.finish(2).unwrap();
    let r = ColumnarGeometryTable::from_columns(
        Some(short),
        None,
        None,
        None,
        None,
        None,
        name_col,
        desc_col,
        2,
    );
    assert!(matches!(r, Err(GeoError::InvalidState)));
}

#[test]
fn from_columns_rejects_polygon_entry_without_rings() {
    let poly_col = VariantColumn::from_entries(vec![Some(Vec::<Vec<Coord>>::new())]);
    let mut names: VariantBuilder<String> = VariantBuilder::new_active();
    let name_col = names.finish(1).unwrap();
    let mut descs: VariantBuilder<String> = VariantBuilder::new_active();
    let desc_col = descs.finish(1).unwrap();
    let r = ColumnarGeometryTable::from_columns(
        None,
        None,
        None,
        None,
        Some(poly_col),
        None,
        name_col,
        desc_col,
        1,
    );
    assert!(matches!(r, Err(GeoError::UnsupportedGeometryKind)));
}

#[test]
fn from_columns_accepts_consistent_columns() {
    let point_col = VariantColumn::from_entries(vec![Some(c(5.0, 6.0)), None]);
    let mut names: VariantBuilder<String> = VariantBuilder::new_active();
    let name_col = names.finish(2).unwrap();
    let mut descs: VariantBuilder<String> = VariantBuilder::new_active();
    let desc_col = descs.finish(2).unwrap();
    let t = ColumnarGeometryTable::from_columns(
        Some(point_col),
        None,
        None,
        None,
        None,
        None,
        name_col,
        desc_col,
        2,
    )
    .unwrap();
    assert_eq!(t.get_row(0), Some(Geometry::Point(c(5.0, 6.0))));
    assert_eq!(t.get_row(1), None);
}

#[test]
fn multi_polygon_round_trip_with_orientation() {
    let cw = ring(&[(0.0, 0.0), (0.0, 2.0), (2.0, 2.0), (2.0, 0.0), (0.0, 0.0)]);
    let mut ccw = cw.clone();
    ccw.reverse();
    let mut b = Builders::new();
    b.encode_value(
        Some(Geometry::MultiPolygon(vec![PolygonGeom {
            exterior: cw,
            interiors: vec![],
        }])),
        true,
    )
    .unwrap();
    let t = b.finish_geometry().unwrap();
    assert_eq!(
        t.get_row(0),
        Some(Geometry::MultiPolygon(vec![PolygonGeom {
            exterior: ccw,
            interiors: vec![],
        }]))
    );
}

#[test]
fn direct_add_calls_build_rows() {
    let mut b = Builders::new();
    b.add_point(c(0.0, 0.0), true).unwrap();
    b.add_points(vec![c(1.0, 1.0), c(2.0, 2.0)], true).unwrap();
    b.add_line(ring(&[(0.0, 0.0), (1.0, 0.0)]), true).unwrap();
    b.add_lines(vec![ring(&[(0.0, 0.0), (1.0, 0.0)])], true).unwrap();
    b.add_polygon(
        PolygonGeom {
            exterior: ring(&[(0.0, 0.0), (1.0, 0.0), (1.0, 1.0), (0.0, 0.0)]),
            interiors: vec![],
        },
        true,
    )
    .unwrap();
    b.add_polygons(vec![], true).unwrap();
    let t = b.finish_geometry().unwrap();
    assert_eq!(t.row_count(), 6);
    assert!(matches!(t.get_row(0), Some(Geometry::Point(_))));
    assert!(matches!(t.get_row(1), Some(Geometry::MultiPoint(_))));
    assert!(matches!(t.get_row(2), Some(Geometry::LineString(_))));
    assert!(matches!(t.get_row(3), Some(Geometry::MultiLineString(_))));
    assert!(matches!(t.get_row(4), Some(Geometry::Polygon(_))));
    assert!(matches!(t.get_row(5), Some(Geometry::MultiPolygon(_))));
}

#[test]
fn malformed_line_string_becomes_null_entry() {
    let mut b = Builders::new();
    b.encode_value(
        Some(Geometry::LineString(vec![c(0.0, 0.0), c(f64::INFINITY, 1.0)])),
        true,
    )
    .unwrap();
    assert_eq!(b.warnings().len(), 1);
    assert_eq!(b.warnings()[0].kind, GeoError::MalformedCoordinate);
    let t = b.finish_geometry().unwrap();
    assert!(t.line_string_column().as_ref().unwrap().is_null(0));
    assert_eq!(t.get_row(0), None);
}

#[test]
fn self_touching_ring_without_reversed_winding_is_kept_as_stored() {
    // A self-touching ring whose least vertex occurs twice: the
    // algorithm library judges both the ring and its reverse
    // clockwise, since reversal moves the occurrence it examines. The
    // decoder must then hand the exterior back as stored rather than
    // reverse it blindly.
    let touching = ring(&[
        (1.0, 1.0),
        (0.0, 0.0),
        (1.0, 2.0),
        (3.0, 1.0),
        (0.0, 0.0),
        (2.0, 0.0),
        (1.0, 1.0),
    ]);
    let mut b = Builders::new();
    b.encode_value(
        Some(Geometry::Polygon(PolygonGeom {
            exterior: touching.clone(),
            interiors: vec![],
        })),
        true,
    )
    .unwrap();
    let t = b.finish_geometry().unwrap();
    assert_eq!(
        t.get_row(0).unwrap(),
        Geometry::Polygon(PolygonGeom {
            exterior: touching,
            interiors: vec![],
        })
    );
}
