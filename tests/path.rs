use art::path::Path;
use art::path_style::FillRule;
use art::point::Point;
use art::rectangle::Rectangle;
use art::shape::Shape;

fn square() -> Vec<Point> {
    vec![Point(0, 0), Point(10, 0), Point(10, 10), Point(0, 10)]
}

#[test]
fn segments_crossing_in_x_intersect() {
    assert!(Path::intersects(
        (Point(0, 0), Point(10, 10)),
        (Point(0, 10), Point(10, 0))
    ));
}

#[test]
fn parallel_segments_do_not_intersect() {
    assert!(!Path::intersects(
        (Point(0, 0), Point(10, 0)),
        (Point(0, 5), Point(10, 5))
    ));
}

#[test]
fn touching_segments_intersect() {
    assert!(Path::intersects(
        (Point(0, 0), Point(10, 0)),
        (Point(10, 0), Point(10, 10))
    ));
    assert!(Path::intersects(
        (Point(0, 0), Point(10, 0)),
        (Point(5, 0), Point(20, 0))
    ));
    assert!(!Path::intersects(
        (Point(0, 0), Point(10, 0)),
        (Point(11, -5), Point(11, 5))
    ));
}

#[test]
fn closed_square_contains_center() {
    let mut points = square();
    points.push(Point(0, 0));
    let path = Path::new(points);
    assert!(path.contains(&Point(5, 5)));
    assert!(path.contains(&Point(1, 8)));
}

#[test]
fn open_square_leaves_left_ray_unmet() {
    // Without the closing edge back to (0, 0) the ray from (5, 5) to the
    // left edge of the box meets no segment, so the point is not inside.
    let path = Path::new(square());
    assert!(!path.contains(&Point(5, 5)));
}

#[test]
fn point_outside_bounding_box_is_not_contained() {
    let path = Path::new(square());
    assert!(!path.contains(&Point(50, 50)));
    let mut closed = square();
    closed.push(Point(0, 0));
    assert!(!Path::new(closed).contains(&Point(50, 50)));
}

#[test]
fn empty_path_contains_nothing() {
    let path = Path::new(vec![]);
    assert!(!path.contains(&Point(0, 0)));
}

#[test]
fn containment_is_repeatable() {
    let mut points = square();
    points.push(Point(0, 0));
    let path = Path::new(points);
    let first = path.contains(&Point(3, 4));
    let second = path.contains(&Point(3, 4));
    assert_eq!(first, second);
}

#[test]
fn bounding_box_of_no_points_is_none() {
    assert_eq!(Path::new(vec![]).bounding_box(), None);
}

#[test]
fn bounding_box_of_one_point_is_zero_sized() {
    let path = Path::new(vec![Point(3, -4)]);
    assert_eq!(path.bounding_box(), Some(Rectangle::new(Point(3, -4), 0, 0)));
}

#[test]
fn bounding_box_covers_every_point() {
    let points = vec![Point(3, 7), Point(-2, 4), Point(8, -1), Point(0, 0)];
    let path = Path::new(points.clone());
    let b = path.bounding_box().unwrap();
    assert_eq!(b, Rectangle::new(Point(-2, -1), 10, 8));
    for p in points {
        assert!(b.position.0 <= p.0 && p.0 <= b.position.0 + b.width as i32);
        assert!(b.position.1 <= p.1 && p.1 <= b.position.1 + b.height as i32);
    }
}

#[test]
fn segment_lengths_of_short_paths() {
    assert!(Path::new(vec![]).segment_lengths_squared().is_empty());
    assert!(Path::new(vec![Point(1, 1)]).segment_lengths_squared().is_empty());
    assert_eq!(
        Path::new(vec![Point(0, 0), Point(3, 4)]).segment_lengths_squared(),
        vec![25]
    );
}

#[test]
fn segment_lengths_reverse_with_the_path() {
    let points = vec![Point(0, 0), Point(3, 4), Point(3, 10), Point(-1, 7)];
    let forward = Path::new(points.clone()).segment_lengths_squared();
    assert_eq!(forward, vec![25, 36, 25]);
    let mut reversed_points = points;
    reversed_points.reverse();
    let mut backward = Path::new(reversed_points).segment_lengths_squared();
    backward.reverse();
    assert_eq!(forward, backward);
}

#[test]
fn path_grows_and_rotates() {
    let mut path = Path::new(vec![Point(0, 0)]);
    path.add_point(Point(4, 6));
    assert_eq!(path.points, vec![Point(0, 0), Point(4, 6)]);
    let rotated = path.rotate(90, Point(2, 3));
    assert_eq!(rotated.rotation, Some(90));
    assert_eq!(rotated.rotation_center, Some(Point(2, 3)));
    assert_eq!(rotated.points, vec![Point(0, 0), Point(4, 6)]);
}

#[test]
fn path_center_is_that_of_its_bounding_box() {
    let path = Path::new(vec![Point(2, 2), Point(10, 6)]);
    assert_eq!(path.center(), Point(5, 3));
    assert_eq!(Path::new(vec![]).center(), Point(0, 0));
}

#[test]
fn point_shape() {
    let p = Point(3, 4);
    assert_eq!(p.center(), p);
    assert!(p.contains(&Point(3, 4)));
    assert!(!p.contains(&Point(4, 3)));
    assert_eq!(p.bounding_box(), Some(Rectangle::new(p, 0, 0)));
    assert_eq!(p.distance_squared(&Point(0, 0)), 25);
    assert!(p.is_within(&Point(0, 0), 6));
    assert!(!p.is_within(&Point(0, 0), 5));
}

#[test]
fn fill_rule_keywords() {
    assert_eq!(FillRule::EvenOdd.as_str(), "evenodd");
    assert_eq!(FillRule::NonZero.as_str(), "nonzero");
    assert_eq!(FillRule::default(), FillRule::EvenOdd);
}

#[test]
fn map_shifts_by_scaled_start() {
    assert_eq!(art::math::map(5, 0..10, 0..100), 5);
    assert_eq!(art::math::map(5, 2..4, 0..10), -5);
    assert_eq!(art::math::map(7, 3..10, 1..5), 7);
    assert_eq!(art::math::map(0, -3..1, 0..5), 3);
}
