//! Intersection of native polygon columns, over planar geometries.

use geo::{Area, BooleanOps};
use geo_types::{Geometry, LineString, MultiPolygon, Point, Polygon};
use vortex_row::array::Array;
use vortex_row::dtype::{DType, ExtDType, GeoMetadata, Nullability};
use vortex_row::error::Error;
use vortex_row::geometry::execute::{dispatch_unary, Operand};
use vortex_row::geometry::intersection::{intersection_metadata, GeoIntersection};
use vortex_row::mask::Mask;

fn square(xmin: f64, ymin: f64, xmax: f64, ymax: f64) -> Vec<(f64, f64)> {
    vec![
        (xmin, ymin),
        (xmax, ymin),
        (xmax, ymax),
        (xmin, ymax),
        (xmin, ymin),
    ]
}

fn polygon(mut rings: Vec<Vec<(f64, f64)>>) -> Geometry<f64> {
    if rings.is_empty() {
        return Geometry::Polygon(Polygon::new(LineString::new(vec![]), vec![]));
    }
    let exterior = LineString::from(rings.remove(0));
    let interiors = rings.into_iter().map(LineString::from).collect();
    Geometry::Polygon(Polygon::new(exterior, interiors))
}

fn polygon_dtype() -> DType {
    DType::Extension(ExtDType::Polygon(
        GeoMetadata::default(),
        Nullability::NonNullable,
    ))
}

fn crs_dtype(crs: &str) -> DType {
    DType::Extension(ExtDType::Polygon(metadata(Some(crs)), Nullability::NonNullable))
}

fn metadata(crs: Option<&str>) -> GeoMetadata {
    GeoMetadata { crs: crs.map(String::from) }
}

fn polygon_column(rows: Vec<Vec<Vec<(f64, f64)>>>) -> Array<Geometry<f64>> {
    Array::from_values(rows.into_iter().map(polygon).collect(), polygon_dtype())
}

fn polygon_constant(ring: Vec<(f64, f64)>, len: usize) -> Array<Geometry<f64>> {
    Array::constant(polygon(vec![ring]), polygon_dtype(), len)
}

fn intersect(left: &Geometry<f64>, right: &Geometry<f64>) -> MultiPolygon<f64> {
    let (Geometry::Polygon(left), Geometry::Polygon(right)) = (left, right) else {
        unreachable!("intersection operands were validated as Polygon")
    };
    left.intersection(right)
}

fn intersections(
    left: Array<Geometry<f64>>,
    right: Array<Geometry<f64>>,
) -> Array<MultiPolygon<f64>> {
    GeoIntersection::try_new_array(left, right)
        .unwrap()
        .execute(intersect)
        .unwrap()
}

fn areas(array: &Array<MultiPolygon<f64>>) -> Vec<Option<f64>> {
    (0..array.len())
        .map(|i| array.row(i).map(|shape| shape.unsigned_area()))
        .collect()
}

#[test]
fn q9_area_pipeline_handles_overlap_disjoint_and_touching() {
    let left = polygon_column(vec![
        vec![square(0.0, 0.0, 2.0, 2.0)],
        vec![square(0.0, 0.0, 1.0, 1.0)],
        vec![square(0.0, 0.0, 1.0, 1.0)],
    ]);
    let right = polygon_column(vec![
        vec![square(1.0, 1.0, 3.0, 3.0)],
        vec![square(2.0, 2.0, 3.0, 3.0)],
        vec![square(1.0, 0.0, 2.0, 1.0)],
    ]);
    let lazy = GeoIntersection::try_new_array(left, right).unwrap();
    assert!(matches!(
        lazy.dtype(),
        DType::Extension(ExtDType::MultiPolygon(_, Nullability::NonNullable))
    ));
    assert_eq!(lazy.len(), 3);

    let shapes = lazy.execute(intersect).unwrap();
    assert_eq!(shapes.dtype(), lazy.dtype());
    let polygon_counts: Vec<usize> = (0..3).map(|i| shapes.row(i).unwrap().0.len()).collect();
    assert_eq!(polygon_counts, [1, 0, 0]);

    assert_eq!(areas(&shapes), vec![Some(1.0), Some(0.0), Some(0.0)]);
}

#[test]
fn preserves_holes() {
    let left = polygon_column(vec![vec![
        square(0.0, 0.0, 4.0, 4.0),
        square(1.0, 1.0, 3.0, 3.0),
    ]]);
    let right = polygon_column(vec![vec![square(2.0, 0.0, 5.0, 4.0)]]);

    assert_eq!(areas(&intersections(left, right)), vec![Some(6.0)]);
}

#[test]
fn propagates_nulls() {
    let left = polygon_column(vec![
        vec![square(0.0, 0.0, 2.0, 2.0)],
        vec![square(0.0, 0.0, 2.0, 2.0)],
    ])
    .mask(&Mask::from_bits(vec![true, false]));
    let right = polygon_column(vec![
        vec![square(1.0, 1.0, 3.0, 3.0)],
        vec![square(1.0, 1.0, 3.0, 3.0)],
    ]);
    let valid = GeoIntersection.validity(&left, &right);
    assert!(valid.value(0) && !valid.value(1));

    let result = intersections(left, right);
    assert!(result.dtype().is_nullable());
    assert_eq!(areas(&result), vec![Some(1.0), None]);
}

#[test]
fn pairs_constants_with_columns() {
    for constant_left in [true, false] {
        let constant = polygon_constant(square(0.0, 0.0, 2.0, 2.0), 2);
        let column = polygon_column(vec![
            vec![square(1.0, 1.0, 3.0, 3.0)],
            vec![square(3.0, 3.0, 4.0, 4.0)],
        ]);
        let (left, right) = if constant_left {
            (constant, column)
        } else {
            (column, constant)
        };
        assert_eq!(areas(&intersections(left, right)), vec![Some(1.0), Some(0.0)]);
    }
}

#[test]
fn two_constants_remain_constant() {
    let left = polygon_constant(square(0.0, 0.0, 2.0, 2.0), 3);
    let right = polygon_constant(square(1.0, 1.0, 3.0, 3.0), 3);

    let result = intersections(left, right);

    assert!(result.scalar().is_some(), "intersection of two constants should remain constant");
    assert_eq!(result.len(), 3);
    assert_eq!(areas(&result), vec![Some(1.0), Some(1.0), Some(1.0)]);
}

#[test]
fn rejects_wrong_arity() {
    for arity in [0, 1, 3] {
        let dtypes: Vec<DType> = (0..arity).map(|_| polygon_dtype()).collect();
        let error = GeoIntersection.return_dtype(&dtypes).unwrap_err();
        assert_eq!(
            error.message(),
            format!("geo: intersection requires exactly two Polygon operands, got {arity}")
        );
    }
}

#[test]
fn rejects_non_polygon_input() {
    let polygon = polygon_column(vec![vec![]]);
    let point = Array::from_values(
        vec![Geometry::Point(Point::new(0.0, 0.0))],
        DType::Extension(ExtDType::Point(
            GeoMetadata::default(),
            Nullability::NonNullable,
        )),
    );
    let error = GeoIntersection::try_new_array(polygon, point).unwrap_err();
    assert_eq!(
        error.message(),
        "geo: intersection operand vortex.geo.point is not a native Polygon"
    );
}

#[test]
fn rejects_columns_of_different_lengths() {
    let left = polygon_column(vec![vec![square(0.0, 0.0, 1.0, 1.0)]]);
    let right = polygon_column(vec![]);
    assert!(matches!(
        GeoIntersection::try_new_array(left, right),
        Err(Error::ColumnRows { row_count: 1 })
    ));
}

#[test]
fn reference_systems_are_shared_or_rejected() {
    let crs = |left, right| {
        intersection_metadata(&metadata(left), &metadata(right)).map(|metadata| metadata.crs)
    };
    let wgs84 = || Some(String::from("EPSG:4326"));
    assert_eq!(crs(Some("EPSG:4326"), Some("EPSG:4326")).unwrap(), wgs84());
    assert_eq!(crs(Some("EPSG:4326"), None).unwrap(), wgs84());
    assert_eq!(crs(None, Some("EPSG:4326")).unwrap(), wgs84());
    assert_eq!(crs(None, None).unwrap(), None);
    assert_eq!(
        crs(Some("EPSG:4326"), Some("EPSG:3857")).unwrap_err().message(),
        "geo: intersection operands have different coordinate reference systems: \
         EPSG:4326 and EPSG:3857"
    );

    assert!(GeoIntersection
        .return_dtype(&[crs_dtype("EPSG:4326"), crs_dtype("EPSG:3857")])
        .is_err());
    let shared = GeoIntersection
        .return_dtype(&[polygon_dtype().as_nullable(), crs_dtype("EPSG:4326")])
        .unwrap();
    assert_eq!(
        shared,
        DType::Extension(ExtDType::MultiPolygon(
            metadata(Some("EPSG:4326")),
            Nullability::Nullable
        ))
    );
    assert_eq!(
        shared,
        GeoIntersection
            .return_dtype(&[crs_dtype("EPSG:4326"), polygon_dtype().as_nullable()])
            .unwrap()
    );
}

#[test]
fn nulls_short_circuit() {
    let squares = || {
        polygon_column(vec![
            vec![square(0.0, 0.0, 2.0, 2.0)],
            vec![square(0.0, 0.0, 2.0, 2.0)],
        ])
    };
    let never = |_: &Geometry<f64>, _: &Geometry<f64>| -> MultiPolygon<f64> {
        panic!("no row is valid in both operands")
    };

    let null = Array::null_constant(&polygon_dtype(), 2);
    let result = GeoIntersection.execute(&squares(), &null, never).unwrap();
    assert!(result.is_null_constant());
    assert_eq!(result.len(), 2);

    let left = squares().mask(&Mask::from_bits(vec![true, false]));
    let right = squares().mask(&Mask::from_bits(vec![false, true]));
    let result = GeoIntersection.execute(&left, &right, never).unwrap();
    assert!(result.is_null_constant());
}

#[test]
fn the_function_describes_itself() {
    assert_eq!(GeoIntersection.id(), "vortex.geo.intersection");
    assert_eq!(GeoIntersection.arity(), 2);
    assert_eq!(GeoIntersection.child_name(0), "left");
    assert_eq!(GeoIntersection.child_name(1), "right");
    assert!(GeoIntersection.is_strict());
    assert!(!GeoIntersection.is_fallible());
    assert_eq!(GeoIntersection.serialize().unwrap(), Some(vec![]));
    assert!(GeoIntersection.deserialize(&[]).is_ok());
}

#[test]
fn a_unary_kernel_sees_a_constant_or_a_column() {
    let output = DType::Bool(Nullability::Nullable);
    let shape = |array: &Array<i64>| {
        dispatch_unary(array, &output, |execution| {
            let constant = matches!(execution.operands[0], Operand::Constant(_));
            let valid = (0..execution.len).filter(|&i| execution.valid.value(i)).count();
            Ok(Array::constant(
                (constant, valid),
                DType::Bool(execution.nullability),
                execution.len,
            ))
        })
        .unwrap()
    };
    let dtype = DType::Bool(Nullability::NonNullable);

    let constant = Array::constant(7, dtype.clone(), 3);
    assert_eq!(shape(&constant).scalar(), Some(&(true, 3)));
    let masked = constant.mask(&Mask::from_bits(vec![true, false, true]));
    assert_eq!(shape(&masked).scalar(), Some(&(false, 2)));
    let column = Array::from_values(vec![1, 2], dtype.clone());
    assert_eq!(shape(&column).scalar(), Some(&(false, 2)));
    assert!(shape(&Array::null_constant(&dtype, 4)).is_null_constant());
    assert!(shape(&column.mask(&Mask::new_false(2))).is_null_constant());
    let empty = Array::from_values(vec![], dtype);
    assert_eq!(shape(&empty).scalar(), Some(&(false, 0)));
}
