use geopolars_arrow::error::GeoArrowError;
use geopolars_arrow::geometry::{GeometryArray, GeometryType};
use geopolars_arrow::interop::{ChildColumn, ColumnData, StructRecord};
use geopolars_arrow::point::{check, PointArray, PointBits};
use polars::export::arrow::bitmap::Bitmap;
use polars::export::arrow::buffer::Buffer;

fn bits(v: &[f64]) -> Buffer<u64> {
    Buffer::from(v.iter().map(|f| f.to_bits()).collect::<Vec<u64>>())
}

fn pt(x: f64, y: f64) -> PointBits {
    PointBits { x: x.to_bits(), y: y.to_bits() }
}

fn sample() -> PointArray {
    PointArray::try_new(
        bits(&[1.0, 2.0, 3.0]),
        bits(&[4.0, 5.0, 6.0]),
        Some(Bitmap::from([true, false, true])),
    )
    .unwrap()
}

#[test]
fn it_works() {
    let result = 2 + 2;
    assert_eq!(result, 4);
}

#[test]
fn try_new_accepts_matching_lengths() {
    let a = PointArray::try_new(bits(&[1.0, 2.0]), bits(&[3.0, 4.0]), None).unwrap();
    assert_eq!(a.len(), 2);
    assert!(!a.is_empty());
    let b = PointArray::try_new(
        bits(&[1.0, 2.0, 3.0, 4.0]),
        bits(&[3.0, 4.0, 5.0, 6.0]),
        Some(Bitmap::from([false, true, true, true])),
    )
    .unwrap();
    assert_eq!(b.len(), 4);
    assert_eq!(b.validity().unwrap().len(), 4);
}

#[test]
fn empty_container() {
    let a = PointArray::try_new(bits(&[]), bits(&[]), None).unwrap();
    assert_eq!(a.len(), 0);
    assert!(a.is_empty());
    assert!(a.iter_geo().is_empty());
    assert!(a.iter_geo_values().is_empty());
}

#[test]
fn x_and_y_of_different_lengths_are_refused() {
    let r = PointArray::try_new(bits(&[1.0, 2.0, 3.0]), bits(&[4.0, 5.0]), None);
    assert!(matches!(r, Err(GeoArrowError::ShapeMismatch)));
}

#[test]
fn validity_of_wrong_length_is_refused() {
    let r = PointArray::try_new(
        bits(&[1.0, 2.0]),
        bits(&[4.0, 5.0]),
        Some(Bitmap::from([true, false, true])),
    );
    assert!(matches!(r, Err(GeoArrowError::ShapeMismatch)));
}

#[test]
fn check_reports_each_mismatch() {
    assert_eq!(check(3, 3, None), Ok(()));
    assert_eq!(check(3, 3, Some(3)), Ok(()));
    assert_eq!(check(3, 2, None), Err(GeoArrowError::ShapeMismatch));
    assert_eq!(check(3, 3, Some(2)), Err(GeoArrowError::ShapeMismatch));
}

#[test]
fn get_as_geo_follows_validity() {
    let a = sample();
    assert_eq!(a.get_as_geo(0), Some(pt(1.0, 4.0)));
    assert_eq!(a.get_as_geo(1), None);
    assert_eq!(a.get_as_geo(2), Some(pt(3.0, 6.0)));
    assert!(a.is_null(1));
    assert!(a.is_valid(0));
    assert_eq!(a.value_as_geo(1), pt(2.0, 5.0));
}

#[test]
fn iter_geo_values_ignores_validity() {
    let a = sample();
    assert_eq!(
        a.iter_geo_values(),
        vec![pt(1.0, 4.0), pt(2.0, 5.0), pt(3.0, 6.0)]
    );
    assert_eq!(
        a.iter_geo(),
        vec![Some(pt(1.0, 4.0)), None, Some(pt(3.0, 6.0))]
    );
}

#[test]
fn slice_scenario() {
    let a = sample();
    let s = a.slice(1, 2);
    assert_eq!(s.len(), 2);
    assert_eq!(s.get_as_geo(0), None);
    assert_eq!(s.get_as_geo(1), Some(pt(3.0, 6.0)));
    assert_eq!(s.values_x().as_slice(), &[2.0f64.to_bits(), 3.0f64.to_bits()]);
    assert_eq!(s.values_y().as_slice(), &[5.0f64.to_bits(), 6.0f64.to_bits()]);
}

#[test]
fn slice_agrees_with_source() {
    let a = PointArray::try_new(
        bits(&[1.0, 2.0, 3.0, 4.0, 5.0]),
        bits(&[6.0, 7.0, 8.0, 9.0, 10.0]),
        Some(Bitmap::from([true, false, true, true, false])),
    )
    .unwrap();
    for offset in 0..=5usize {
        for length in 0..=(5 - offset) {
            let s = a.slice(offset, length);
            assert_eq!(s.len(), length);
            for i in 0..length {
                assert_eq!(s.get_as_geo(i), a.get_as_geo(offset + i));
            }
        }
    }
}

#[test]
fn slice_without_nulls_drops_bitmap() {
    let a = sample();
    let s = a.slice(2, 1);
    assert!(s.validity().is_none());
    assert_eq!(s.get_as_geo(0), Some(pt(3.0, 6.0)));
    let t = a.slice_unchecked(0, 2);
    assert_eq!(t.validity().unwrap().unset_bits(), 1);
}

#[test]
fn all_set_bitmap_is_no_bitmap() {
    let with = PointArray::new(
        bits(&[1.0, 2.0]),
        bits(&[3.0, 4.0]),
        Some(Bitmap::from([true, true])),
    );
    let without = PointArray::new(bits(&[1.0, 2.0]), bits(&[3.0, 4.0]), None);
    assert!(with.validity().is_none());
    assert!(with.logically_eq(&without));
    assert!(without.logically_eq(&with));
}

#[test]
fn logical_equality_ignores_null_slot_values() {
    let a = sample();
    let b = PointArray::try_new(
        bits(&[1.0, 99.0, 3.0]),
        bits(&[4.0, -1.0, 6.0]),
        Some(Bitmap::from([true, false, true])),
    )
    .unwrap();
    assert!(a.logically_eq(&b));
    let c = PointArray::try_new(bits(&[1.0, 2.0, 3.0]), bits(&[4.0, 5.0, 6.0]), None).unwrap();
    assert!(!a.logically_eq(&c));
    let d = a.slice(0, 2);
    assert!(!a.logically_eq(&d));
}

#[test]
fn round_trip_through_struct_record() {
    let a = sample();
    let rec = a.clone().into_arrow();
    assert_eq!(rec.children.len(), 2);
    assert_eq!(rec.children[0].name, "x");
    assert_eq!(rec.children[1].name, "y");
    assert!(!rec.children[0].nullable);
    let back = PointArray::try_from_arrow(rec).unwrap();
    assert!(back.logically_eq(&a));
    assert_eq!(back.iter_geo(), a.iter_geo());
}

#[test]
fn integer_child_column_is_refused() {
    let rec = StructRecord {
        children: vec![
            ChildColumn {
                name: "x".to_string(),
                nullable: false,
                data: ColumnData::Float64(bits(&[1.0, 2.0])),
            },
            ChildColumn { name: "y".to_string(), nullable: false, data: ColumnData::Other },
        ],
        validity: None,
    };
    assert!(matches!(
        PointArray::try_from_arrow(rec),
        Err(GeoArrowError::SchemaMismatch)
    ));
}

#[test]
fn wrong_child_count_is_refused() {
    let rec = StructRecord {
        children: vec![ChildColumn {
            name: "x".to_string(),
            nullable: false,
            data: ColumnData::Float64(bits(&[1.0])),
        }],
        validity: None,
    };
    assert!(matches!(
        PointArray::try_from_arrow(rec),
        Err(GeoArrowError::SchemaMismatch)
    ));
}

#[test]
fn record_with_mismatched_children_is_a_shape_error() {
    let rec = StructRecord {
        children: vec![
            ChildColumn {
                name: "x".to_string(),
                nullable: false,
                data: ColumnData::Float64(bits(&[1.0, 2.0])),
            },
            ChildColumn {
                name: "y".to_string(),
                nullable: false,
                data: ColumnData::Float64(bits(&[1.0])),
            },
        ],
        validity: None,
    };
    assert!(matches!(
        PointArray::try_from_arrow(rec),
        Err(GeoArrowError::ShapeMismatch)
    ));
}

#[test]
fn from_points_marks_absent_points_null() {
    let a = PointArray::from_points(&vec![Some(pt(1.0, 2.0)), None, Some(pt(5.0, 6.0))]);
    assert_eq!(a.len(), 3);
    assert_eq!(
        a.iter_geo(),
        vec![Some(pt(1.0, 2.0)), None, Some(pt(5.0, 6.0))]
    );
    let b = PointArray::from_points(&vec![Some(pt(1.0, 2.0))]);
    assert!(b.validity().is_none());
    assert_eq!(b.values_x().as_slice(), &[1.0f64.to_bits()]);
}

#[test]
fn geometry_array_dispatch() {
    let g = GeometryArray::Point(sample());
    assert_eq!(g.len(), 3);
    assert_eq!(g.geometry_type(), GeometryType::Point);
    assert_eq!(g.validity().unwrap().len(), 3);
    let s = g.slice(1, 2);
    assert_eq!(s.len(), 2);
    let p = s.as_point().unwrap();
    assert_eq!(p.get_as_geo(0), None);
    assert_eq!(p.get_as_geo(1), Some(pt(3.0, 6.0)));
    let t = g.slice_unchecked(2, 1);
    assert!(t.validity().is_none());
    let c = g.to_boxed();
    assert_eq!(c.as_point().unwrap().iter_geo(), sample().iter_geo());
}
