use hyu::Point;

#[test]
fn is_inside_accepts_interior_and_top_left_edge() {
    let rect = (Point(10, 20), Point(100, 50));
    assert!(Point(10, 20).is_inside(rect));
    assert!(Point(50, 40).is_inside(rect));
    assert!(Point(109, 69).is_inside(rect));
}

#[test]
fn is_inside_rejects_right_and_bottom_edges() {
    let rect = (Point(10, 20), Point(100, 50));
    assert!(!Point(110, 40).is_inside(rect));
    assert!(!Point(50, 70).is_inside(rect));
    assert!(!Point(9, 40).is_inside(rect));
    assert!(!Point(50, 19).is_inside(rect));
}

#[test]
fn empty_rectangle_contains_nothing() {
    assert!(!Point(0, 0).is_inside((Point(0, 0), Point(0, 10))));
    assert!(!Point(0, 0).is_inside((Point(0, 0), Point(10, -1))));
}

#[test]
fn translated_point_stays_inside_translated_rectangle() {
    let rect = (Point(10, 20), Point(100, 50));
    let offset = Point(7, -3);
    for p in [Point(10, 20), Point(109, 69), Point(110, 69), Point(0, 0)] {
        assert_eq!(
            p.is_inside(rect),
            (p - offset).is_inside((rect.0 - offset, rect.1))
        );
    }
}

#[test]
fn operators_work_component_wise() {
    assert_eq!(Point(1, 2) + Point(3, 4), Point(4, 6));
    assert_eq!(Point(1, 2) - Point(3, 5), Point(-2, -3));
    assert_eq!(Point(2, -3) * Point(4, 5), Point(8, -15));
}

#[test]
fn assigning_operators_update_in_place() {
    let mut p = Point(1, 1);
    p.add_assign(Point(2, 3));
    assert_eq!(p, Point(3, 4));
    p.sub_assign(Point(1, 1));
    assert_eq!(p, Point(2, 3));
    p.mul_assign(Point(5, -2));
    assert_eq!(p, Point(10, -6));
}

#[test]
fn default_point_is_origin() {
    assert_eq!(Point::default(), Point(0, 0));
}
