use art::point::Point;
use art::pointmap::{Pointmap, PointmapError};
use art::rectangle::Rectangle;

fn bounds() -> Rectangle {
    Rectangle::new(Point(0, 0), 100, 100)
}

#[test]
fn far_point_is_not_a_neighbor() {
    let mut map: Pointmap<Point> = Pointmap::new(bounds(), 10);
    assert_eq!(map.add_point(Point(5, 5)), Ok(()));
    assert_eq!(map.add_point(Point(95, 95)), Ok(()));
    let near = map.get_neighbors(&Point(5, 5), Some(20));
    assert_eq!(near, vec![&Point(5, 5)]);
}

#[test]
fn outside_center_is_refused() {
    let mut map: Pointmap<Point> = Pointmap::new(bounds(), 10);
    assert_eq!(map.add_point(Point(-1, 50)), Err(PointmapError::OutOfBounds));
    assert_eq!(map.add_point(Point(50, 101)), Err(PointmapError::OutOfBounds));
    assert_eq!(map.add_point(Point(100, 50)), Err(PointmapError::OutOfBounds));
    assert!(map.points().is_empty());
}

#[test]
fn inside_center_is_taken() {
    let mut map: Pointmap<Point> = Pointmap::new(bounds(), 10);
    assert_eq!(map.add_point(Point(0, 0)), Ok(()));
    assert_eq!(map.add_point(Point(99, 99)), Ok(()));
    assert_eq!(map.add_point(Point(50, 50)), Ok(()));
    assert_eq!(map.points().len(), 3);
}

#[test]
fn inserted_shape_is_its_own_neighbor() {
    let mut map: Pointmap<Point> = Pointmap::new(bounds(), 10);
    for p in [Point(0, 0), Point(37, 81), Point(99, 99), Point(55, 5)] {
        assert_eq!(map.add_point(p), Ok(()));
        assert!(map.get_neighbors(&p, None).contains(&&p));
    }
}

#[test]
fn neighbors_are_closer_than_limit() {
    let mut map: Pointmap<Point> = Pointmap::new(bounds(), 5);
    for p in [Point(10, 10), Point(13, 14), Point(20, 10), Point(25, 25), Point(30, 30)] {
        assert_eq!(map.add_point(p), Ok(()));
    }
    let q = Point(10, 10);
    let near = map.get_neighbors(&q, Some(10));
    assert_eq!(near, vec![&Point(10, 10), &Point(13, 14)]);
    for n in near {
        assert!(n.distance_squared(&q) < 100);
    }
}

#[test]
fn neighbors_cover_adjacent_cells_only() {
    let mut map: Pointmap<Point> = Pointmap::new(bounds(), 10);
    for p in [Point(15, 15), Point(25, 25), Point(35, 35), Point(5, 25)] {
        assert_eq!(map.add_point(p), Ok(()));
    }
    let near = map.get_neighbors(&Point(15, 15), None);
    assert_eq!(near, vec![&Point(15, 15), &Point(5, 25), &Point(25, 25)]);
}

#[test]
fn neighbors_of_empty_map_are_none() {
    let map: Pointmap<Point> = Pointmap::new(bounds(), 4);
    assert!(map.get_neighbors(&Point(50, 50), None).is_empty());
}

#[test]
fn neighbor_queries_are_repeatable() {
    let mut map: Pointmap<Point> = Pointmap::new(bounds(), 10);
    for p in [Point(12, 12), Point(18, 3), Point(40, 40)] {
        assert_eq!(map.add_point(p), Ok(()));
    }
    let first = map.get_neighbors(&Point(15, 15), Some(30));
    let second = map.get_neighbors(&Point(15, 15), Some(30));
    assert_eq!(first, second);
}

#[test]
fn all_points_in_bucket_order() {
    let mut map: Pointmap<Point> = Pointmap::new(bounds(), 2);
    for p in [Point(60, 60), Point(10, 10), Point(70, 10), Point(20, 20)] {
        assert_eq!(map.add_point(p), Ok(()));
    }
    assert_eq!(
        map.points(),
        vec![&Point(10, 10), &Point(20, 20), &Point(70, 10), &Point(60, 60)]
    );
}

#[test]
fn rectangles_are_indexed_by_center() {
    let mut map: Pointmap<Rectangle> = Pointmap::new(bounds(), 10);
    let r = Rectangle::new(Point(10, 10), 20, 20);
    assert_eq!(map.add_point(r), Ok(()));
    assert_eq!(map.get_neighbors(&r, None), vec![&r]);
}
