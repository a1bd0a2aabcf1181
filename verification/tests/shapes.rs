use importer::shapes::{filter_shapes, GpsBounds, LonLat, Shape};

fn bounds() -> GpsBounds {
    GpsBounds { min_lon: 0, min_lat: 0, max_lon: 100, max_lat: 100 }
}

fn pt(lon: i64, lat: i64) -> LonLat {
    LonLat { lon_microdegrees: lon, lat_microdegrees: lat }
}

#[test]
fn strict_filter_drops_a_shape_with_a_single_point_outside_entirely() {
    let inside = Shape { points: vec![pt(10, 10), pt(20, 20)] };
    let straddling = Shape { points: vec![pt(50, 50), pt(150, 50)] };
    let kept = filter_shapes(&vec![inside, straddling], &bounds(), true);
    // The straddling shape is excluded whole, not truncated to its inside point.
    assert_eq!(kept.len(), 1);
    assert_eq!(kept[0].points, vec![pt(10, 10), pt(20, 20)]);
}

#[test]
fn lenient_filter_keeps_a_shape_with_any_point_inside_untruncated() {
    let straddling = Shape { points: vec![pt(50, 50), pt(150, 50)] };
    let outside = Shape { points: vec![pt(150, 150), pt(200, 200)] };
    let kept = filter_shapes(&vec![straddling, outside], &bounds(), false);
    assert_eq!(kept.len(), 1);
    // Kept whole: the outside point is still there.
    assert_eq!(kept[0].points, vec![pt(50, 50), pt(150, 50)]);
}

#[test]
fn boundary_points_count_as_inside() {
    let on_edge = Shape { points: vec![pt(0, 0), pt(100, 100)] };
    let kept = filter_shapes(&vec![on_edge], &bounds(), true);
    assert_eq!(kept.len(), 1);
}

#[test]
fn filter_preserves_the_order_of_kept_shapes() {
    let a = Shape { points: vec![pt(1, 1)] };
    let b = Shape { points: vec![pt(200, 1)] };
    let c = Shape { points: vec![pt(2, 2)] };
    let kept = filter_shapes(&vec![a, b, c], &bounds(), true);
    assert_eq!(kept.len(), 2);
    assert_eq!(kept[0].points, vec![pt(1, 1)]);
    assert_eq!(kept[1].points, vec![pt(2, 2)]);
}

#[test]
fn bounds_contains_checks_both_axes() {
    let b = bounds();
    assert!(b.contains(pt(50, 50)));
    assert!(!b.contains(pt(-1, 50)));
    assert!(!b.contains(pt(50, 101)));
}
