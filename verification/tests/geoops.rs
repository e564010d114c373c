use geopl::GeoError;
use geopl::encode::Builders;
use geopl::geom::{Coord, Geometry, PolygonGeom};
use geopl::ops::{chaikin_smoothing, distance, intersects, run_op_on_struct};
use geopl::result::{Builder, GeomOpResult, GeomTypes, ResultColumn};

fn c(x: f64, y: f64) -> Coord {
    Coord {
        x: x.to_bits(),
        y: y.to_bits(),
    }
}

fn ring(pts: &[(f64, f64)]) -> Vec<Coord> {
    pts.iter().map(|&(x, y)| c(x, y)).collect()
}

#[test]
fn result_builder_fixes_layout_on_first_value() {
    let mut b = Builder::new();
    b.add_null().unwrap();
    b.add_scalar(1.5f64.to_bits()).unwrap();
    b.add_null().unwrap();
    let col = b.finish();
    match col {
        ResultColumn::Scalar(col) => {
            assert_eq!(col.len(), 3);
            assert_eq!(col.get(0), &None);
            assert_eq!(col.get(1), &Some(1.5f64.to_bits()));
            assert_eq!(col.get(2), &None);
        }
        _ => panic!("expected a scalar column"),
    }
}

#[test]
fn result_builder_rejects_mismatched_kind() {
    let mut b = Builder::new();
    b.add_scalar(1.0f64.to_bits()).unwrap();
    assert_eq!(b.add_point(c(0.0, 0.0)), Err(GeoError::IncompatibleResultType));
    // the refused value changed nothing
    b.add_scalar(2.0f64.to_bits()).unwrap();
}

#[test]
fn result_builder_all_nulls_has_no_layout() {
    let mut b = Builder::new();
    b.add_null().unwrap();
    b.add_null().unwrap();
    match b.finish() {
        ResultColumn::Null(n) => assert_eq!(n, 2),
        _ => panic!("expected a column of nulls"),
    }
}

#[test]
fn result_builder_stores_lines_as_line_strings() {
    let mut b = Builder::new();
    b.add_line(c(0.0, 0.0), c(1.0, 1.0)).unwrap();
    match b.finish() {
        ResultColumn::LineString(col) => {
            assert_eq!(col.get(0), &Some(vec![c(0.0, 0.0), c(1.0, 1.0)]));
        }
        _ => panic!("expected a line-string column"),
    }
}

#[test]
fn result_builder_make_layouts() {
    let mut b = Builder::new();
    b.add_null().unwrap();
    b.make_list_arr(GeomTypes::MultiPoint);
    b.add(GeomOpResult::MultiPoint(vec![c(1.0, 2.0)])).unwrap();
    match b.finish() {
        ResultColumn::MultiPoint(col) => {
            assert_eq!(col.len(), 2);
            assert_eq!(col.get(0), &None);
            assert_eq!(col.get(1), &Some(vec![c(1.0, 2.0)]));
        }
        _ => panic!("expected a multi-point column"),
    }
}

#[test]
fn chaikin_smoothing_exact_open_line() {
    let mut b = Builders::new();
    b.encode_value(
        Some(Geometry::LineString(ring(&[(0.0, 0.0), (4.0, 0.0), (4.0, 4.0)]))),
        true,
    )
    .unwrap();
    let t = b.finish_geometry().unwrap();
    let col = chaikin_smoothing(&t, 1).unwrap();
    match col {
        ResultColumn::LineString(col) => {
            // endpoints kept; every segment replaced by its quarter points
            assert_eq!(
                col.get(0),
                &Some(ring(&[
                    (0.0, 0.0),
                    (1.0, 0.0),
                    (3.0, 0.0),
                    (4.0, 1.0),
                    (4.0, 3.0),
                    (4.0, 4.0),
                ]))
            );
        }
        _ => panic!("expected a line-string column"),
    }
}

#[test]
fn chaikin_smoothing_zero_iterations_is_identity() {
    let l = ring(&[(0.0, 0.0), (2.0, 1.0), (4.0, 0.0)]);
    let mut b = Builders::new();
    b.encode_value(Some(Geometry::LineString(l.clone())), true).unwrap();
    let t = b.finish_geometry().unwrap();
    match chaikin_smoothing(&t, 0).unwrap() {
        ResultColumn::LineString(col) => assert_eq!(col.get(0), &Some(l)),
        _ => panic!("expected a line-string column"),
    }
}

#[test]
fn chaikin_smoothing_passes_points_through() {
    let mut b = Builders::new();
    b.encode_value(Some(Geometry::Point(c(3.0, 4.0))), true).unwrap();
    let t = b.finish_geometry().unwrap();
    match chaikin_smoothing(&t, 5).unwrap() {
        ResultColumn::Point(col) => assert_eq!(col.get(0), &Some(c(3.0, 4.0))),
        _ => panic!("expected a point column"),
    }
}

#[test]
fn chaikin_smoothing_mixed_layouts_fail() {
    let mut b = Builders::new();
    b.encode_value(
        Some(Geometry::LineString(ring(&[(0.0, 0.0), (1.0, 0.0)]))),
        true,
    )
    .unwrap();
    b.encode_value(Some(Geometry::Point(c(0.0, 0.0))), true).unwrap();
    let t = b.finish_geometry().unwrap();
    assert!(matches!(
        chaikin_smoothing(&t, 1),
        Err(GeoError::IncompatibleResultType)
    ));
}

#[test]
fn chaikin_smoothing_null_for_mixed_collection_row() {
    let mut b = Builders::new();
    b.encode_value(
        Some(Geometry::Collection(vec![
            Geometry::Point(c(0.0, 0.0)),
            Geometry::LineString(ring(&[(0.0, 0.0), (1.0, 0.0)])),
        ])),
        true,
    )
    .unwrap();
    let t = b.finish_geometry().unwrap();
    match chaikin_smoothing(&t, 1).unwrap() {
        ResultColumn::Null(n) => assert_eq!(n, 1),
        _ => panic!("expected a column of nulls"),
    }
}

#[test]
fn distance_exact_point() {
    let mut b = Builders::new();
    b.encode_value(Some(Geometry::Point(c(0.0, 0.0))), true).unwrap();
    b.encode_value(None, true).unwrap();
    let t = b.finish_geometry().unwrap();
    match distance(&t, 3.0f64.to_bits(), 4.0f64.to_bits()) {
        ResultColumn::Scalar(col) => {
            assert_eq!(col.len(), 2);
            assert_eq!(col.get(0), &Some(5.0f64.to_bits()));
            assert_eq!(col.get(1), &None);
        }
        _ => panic!("expected a scalar column"),
    }
}

#[test]
fn distance_of_collection_row_is_least_member_distance() {
    // point at distance 5, line string at distance 0: the row's
    // distance is 0
    let mut b = Builders::new();
    b.encode_value(
        Some(Geometry::Collection(vec![
            Geometry::Point(c(0.0, 0.0)),
            Geometry::LineString(ring(&[(0.0, 4.0), (6.0, 4.0)])),
        ])),
        true,
    )
    .unwrap();
    let t = b.finish_geometry().unwrap();
    match distance(&t, 3.0f64.to_bits(), 4.0f64.to_bits()) {
        ResultColumn::Scalar(col) => assert_eq!(col.get(0), &Some(0.0f64.to_bits())),
        _ => panic!("expected a scalar column"),
    }
}

#[test]
fn distance_with_nan_query_is_all_null() {
    let mut b = Builders::new();
    b.encode_value(Some(Geometry::Point(c(0.0, 0.0))), true).unwrap();
    let t = b.finish_geometry().unwrap();
    match distance(&t, f64::NAN.to_bits(), 0.0f64.to_bits()) {
        ResultColumn::Null(n) => assert_eq!(n, 1),
        _ => panic!("expected a column of nulls"),
    }
}

#[test]
fn intersects_point_in_polygon() {
    let square = PolygonGeom {
        exterior: ring(&[(0.0, 0.0), (4.0, 0.0), (4.0, 4.0), (0.0, 4.0), (0.0, 0.0)]),
        interiors: vec![],
    };
    let mut b = Builders::new();
    b.encode_value(Some(Geometry::Polygon(square)), true).unwrap();
    b.encode_value(None, true).unwrap();
    let t = b.finish_geometry().unwrap();
    let inside = intersects(&t, 2.0f64.to_bits(), 2.0f64.to_bits());
    assert_eq!(inside, vec![Some(true), None]);
    let outside = intersects(&t, 9.0f64.to_bits(), 9.0f64.to_bits());
    assert_eq!(outside, vec![Some(false), None]);
}

#[test]
fn run_op_on_struct_channels_outputs() {
    let mut b = Builders::new();
    b.encode_value(Some(Geometry::Point(c(1.0, 1.0))), true).unwrap();
    b.encode_value(None, true).unwrap();
    b.encode_value(Some(Geometry::Point(c(2.0, 2.0))), true).unwrap();
    let t = b.finish_geometry().unwrap();
    let col = run_op_on_struct(&t, |g: &Geometry| match g {
        Geometry::Point(p) => GeomOpResult::Point(*p),
        _ => GeomOpResult::Null,
    })
    .unwrap();
    match col {
        ResultColumn::Point(col) => {
            assert_eq!(col.len(), 3);
            assert_eq!(col.get(0), &Some(c(1.0, 1.0)));
            assert_eq!(col.get(1), &None);
            assert_eq!(col.get(2), &Some(c(2.0, 2.0)));
        }
        _ => panic!("expected a point column"),
    }
}

#[test]
fn chaikin_smoothing_exact_closed_polygon() {
    // A closed square ring: every corner is cut at its quarter
    // points, and the smoothed ring is closed again at its new first
    // vertex.
    let square = PolygonGeom {
        exterior: ring(&[(0.0, 0.0), (4.0, 0.0), (4.0, 4.0), (0.0, 4.0), (0.0, 0.0)]),
        interiors: vec![],
    };
    let mut b = Builders::new();
    b.encode_value(Some(Geometry::Polygon(square)), true).unwrap();
    let t = b.finish_geometry().unwrap();
    match chaikin_smoothing(&t, 1).unwrap() {
        ResultColumn::Polygon(col) => {
            let rings = col.get(0).as_ref().unwrap();
            assert_eq!(rings.len(), 1);
            assert_eq!(
                rings[0],
                ring(&[
                    (1.0, 0.0),
                    (3.0, 0.0),
                    (4.0, 1.0),
                    (4.0, 3.0),
                    (3.0, 4.0),
                    (1.0, 4.0),
                    (0.0, 3.0),
                    (0.0, 1.0),
                    (1.0, 0.0),
                ])
            );
        }
        _ => panic!("expected a polygon column"),
    }
}

#[test]
fn distance_to_multi_point_is_least_member_distance() {
    let mut b = Builders::new();
    b.encode_value(
        Some(Geometry::MultiPoint(vec![c(0.0, 0.0), c(3.0, 0.0)])),
        true,
    )
    .unwrap();
    let t = b.finish_geometry().unwrap();
    match distance(&t, 3.0f64.to_bits(), 4.0f64.to_bits()) {
        ResultColumn::Scalar(col) => assert_eq!(col.get(0), &Some(4.0f64.to_bits())),
        _ => panic!("expected a scalar column"),
    }
}

#[test]
fn distance_to_multi_line_string() {
    let mut b = Builders::new();
    b.encode_value(
        Some(Geometry::MultiLineString(vec![
            ring(&[(0.0, 0.0), (0.0, 8.0)]),
            ring(&[(5.0, 4.0), (8.0, 4.0)]),
        ])),
        true,
    )
    .unwrap();
    let t = b.finish_geometry().unwrap();
    match distance(&t, 3.0f64.to_bits(), 4.0f64.to_bits()) {
        ResultColumn::Scalar(col) => assert_eq!(col.get(0), &Some(2.0f64.to_bits())),
        _ => panic!("expected a scalar column"),
    }
}

#[test]
fn distance_to_polygon_and_multi_polygon() {
    let square = || PolygonGeom {
        exterior: ring(&[(0.0, 0.0), (4.0, 0.0), (4.0, 4.0), (0.0, 4.0), (0.0, 0.0)]),
        interiors: vec![],
    };
    let mut b = Builders::new();
    b.encode_value(Some(Geometry::Polygon(square())), true).unwrap();
    let mut b2 = Builders::new();
    b2.encode_value(Some(Geometry::MultiPolygon(vec![square()])), true).unwrap();
    for t in [b.finish_geometry().unwrap(), b2.finish_geometry().unwrap()] {
        match distance(&t, 7.0f64.to_bits(), 4.0f64.to_bits()) {
            ResultColumn::Scalar(col) => assert_eq!(col.get(0), &Some(3.0f64.to_bits())),
            _ => panic!("expected a scalar column"),
        }
    }
}

#[test]
fn intersects_other_kinds() {
    let mut b = Builders::new();
    b.encode_value(
        Some(Geometry::MultiPoint(vec![c(1.0, 1.0), c(2.0, 2.0)])),
        true,
    )
    .unwrap();
    b.encode_value(
        Some(Geometry::LineString(ring(&[(0.0, 0.0), (4.0, 0.0)]))),
        true,
    )
    .unwrap();
    b.encode_value(
        Some(Geometry::MultiLineString(vec![ring(&[(0.0, 5.0), (4.0, 5.0)])])),
        true,
    )
    .unwrap();
    b.encode_value(
        Some(Geometry::MultiPolygon(vec![PolygonGeom {
            exterior: ring(&[(0.0, 0.0), (4.0, 0.0), (4.0, 4.0), (0.0, 4.0), (0.0, 0.0)]),
            interiors: vec![],
        }])),
        true,
    )
    .unwrap();
    let t = b.finish_geometry().unwrap();
    assert_eq!(
        intersects(&t, 2.0f64.to_bits(), 2.0f64.to_bits()),
        vec![Some(true), Some(false), Some(false), Some(true)]
    );
    assert_eq!(
        intersects(&t, 2.0f64.to_bits(), 0.0f64.to_bits()),
        vec![Some(false), Some(true), Some(false), Some(true)]
    );
    assert_eq!(
        intersects(&t, 2.0f64.to_bits(), 5.0f64.to_bits()),
        vec![Some(false), Some(false), Some(true), Some(false)]
    );
}

#[test]
fn run_op_on_struct_layout_mismatch_fails() {
    let mut b = Builders::new();
    b.encode_value(Some(Geometry::Point(c(1.0, 1.0))), true).unwrap();
    b.encode_value(
        Some(Geometry::LineString(ring(&[(0.0, 0.0), (1.0, 0.0)]))),
        true,
    )
    .unwrap();
    let t = b.finish_geometry().unwrap();
    let r = run_op_on_struct(&t, |g: &Geometry| match g {
        Geometry::Point(p) => GeomOpResult::Point(*p),
        Geometry::LineString(_) => GeomOpResult::Float(1.0f64.to_bits()),
        _ => GeomOpResult::Null,
    });
    assert!(matches!(r, Err(GeoError::IncompatibleResultType)));
}

#[test]
fn run_op_on_struct_succeeds_on_all_null_table() {
    let mut b = Builders::new();
    b.encode_value(None, true).unwrap();
    b.encode_value(None, true).unwrap();
    let t = b.finish_geometry().unwrap();
    let r = run_op_on_struct(&t, |_g: &Geometry| GeomOpResult::Float(0.0f64.to_bits()));
    match r.unwrap() {
        ResultColumn::Null(n) => assert_eq!(n, 2),
        _ => panic!("expected a column of nulls"),
    }
}
