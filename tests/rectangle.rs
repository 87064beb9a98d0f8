use art::point::Point;
use art::rectangle::{Rectangle, SplitDirection};
use art::shape::Shape;

#[test]
fn does_not_contain() {
    let rect = Rectangle {
        position: Point(0, 0),
        width: 20,
        height: 20,
    };

    let point = Point(10, 30);

    assert!(!rect.contains(&point));
}

#[test]
fn scale_rect_up() {
    let rect = Rectangle::new(Point(0, 0), 100, 100);

    let scaled = rect.scale(110);
    assert_eq!(scaled, Rectangle::new(Point(-5, -5), 110, 110));
}

#[test]
fn scale_rect_down() {
    let rect = Rectangle::new(Point(0, 0), 100, 100);

    let scaled = rect.scale(90);
    assert_eq!(scaled, Rectangle::new(Point(5, 5), 90, 90));
}

#[test]
fn test_center_0_0() {
    let rect = Rectangle::new(Point(0, 0), 100, 100);

    assert_eq!(rect.center(), Point(50, 50));
}

#[test]
fn test_center_other() {
    let rect = Rectangle::new(Point(50, 0), 100, 100);

    assert_eq!(rect.center(), Point(75, 50));
}

#[test]
fn contains_is_half_open() {
    let rect = Rectangle::new(Point(10, 20), 30, 40);
    assert!(rect.contains(&Point(10, 20)));
    assert!(rect.contains(&Point(39, 59)));
    assert!(!rect.contains(&Point(40, 30)));
    assert!(!rect.contains(&Point(20, 60)));
    assert!(!rect.contains(&Point(9, 30)));
    assert!(!rect.contains(&Point(20, 19)));
}

#[test]
fn zero_sized_rectangle_contains_nothing() {
    let rect = Rectangle::new(Point(5, 5), 0, 0);
    assert!(!rect.contains(&Point(5, 5)));
}

#[test]
fn area_and_ranges() {
    let rect = Rectangle::new(Point(-10, 5), 30, 4);
    assert_eq!(rect.area(), 120);
    assert_eq!(rect.x_range(), -10..20);
    assert_eq!(rect.y_range(), 5..9);
}

#[test]
fn bounding_box_of_rectangle_is_itself() {
    let rect = Rectangle::new(Point(1, 2), 3, 4);
    assert_eq!(rect.bounding_box(), Some(rect));
}

#[test]
fn subdivide_horizontally_with_padding() {
    let rect = Rectangle::new(Point(0, 0), 100, 50);
    let (a, b) = rect.subdivide(&Point(40, 10), SplitDirection::Horizontally, Some(5));
    assert_eq!(a, Rectangle::new(Point(0, 0), 35, 50));
    assert_eq!(b, Rectangle::new(Point(45, 0), 55, 50));
}

#[test]
fn subdivide_vertically_without_padding() {
    let rect = Rectangle::new(Point(10, 10), 20, 100);
    let (a, b) = rect.subdivide(&Point(15, 30), SplitDirection::Vertically, None);
    assert_eq!(a, Rectangle::new(Point(10, 10), 20, 20));
    assert_eq!(b, Rectangle::new(Point(10, 30), 20, 80));
}

#[test]
fn rectangle_outline_is_closed_path() {
    let rect = Rectangle::new(Point(1, 2), 10, 20);
    let path = rect.to_path();
    assert_eq!(
        path.points,
        vec![Point(1, 2), Point(11, 2), Point(11, 22), Point(1, 22), Point(1, 2)]
    );
    assert_eq!(path.rotation, None);
}
