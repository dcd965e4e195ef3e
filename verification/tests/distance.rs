use voronoi::metric::{distance, Distance, Point};

/// The length that a `Distance` stands for, as a floating-point number.
fn length(d: &Distance) -> f64 {
    f64::sqrt(d.squared_value().expect("the square fits in 128 bits") as f64)
}

#[test]
fn the_distance_between_a_point_and_itself_is_zero() {
    let p1 = (0, 0);
    let p2 = (0, 0);
    assert_eq!(length(&distance(&p1, &p2)), 0.0);
}

#[test]
fn the_distance_between_two_points_in_same_row() {
    let p1 = (0, 5);
    let p2 = (0, 10);
    assert_eq!(length(&distance(&p1, &p2)), 5.0);
}

#[test]
fn the_distance_between_two_points_in_same_column() {
    let p1 = (5, 0);
    let p2 = (10, 0);
    assert_eq!(length(&distance(&p1, &p2)), 5.0);
}

#[test]
fn the_distance_between_two_arbitrary_points() {
    let p1 = (0, 0);
    let p2 = (1, 1);
    assert_eq!(length(&distance(&p1, &p2)), f64::sqrt(2.0));
}

#[test]
fn squares_are_exact() {
    assert_eq!(distance(&(0, 5), &(0, 10)).squared_value(), Some(25));
    assert_eq!(distance(&(5, 0), &(10, 0)).squared_value(), Some(25));
    assert_eq!(distance(&(0, 0), &(1, 1)).squared_value(), Some(2));
    assert_eq!(distance(&(3, 4), &(0, 0)).squared_value(), Some(25));
    assert_eq!(distance(&(7, 1), &(2, 13)).squared_value(), Some(25 + 144));
}

#[test]
fn every_point_is_at_distance_zero_from_itself() {
    let points: [Point; 5] = [(0, 0), (1, 2), (599, 799), (usize::MAX, 0), (usize::MAX, usize::MAX)];
    for p in points.iter() {
        assert_eq!(distance(p, p).squared_value(), Some(0));
    }
}

#[test]
fn distance_does_not_depend_on_the_order_of_the_points() {
    let points: [Point; 6] = [(0, 0), (1, 2), (10, 3), (599, 799), (usize::MAX, 0), (0, usize::MAX)];
    for a in points.iter() {
        for b in points.iter() {
            let there = distance(a, b);
            let back = distance(b, a);
            assert_eq!(there.squared_value(), back.squared_value());
            assert!(!there.is_shorter_than(&back));
            assert!(!back.is_shorter_than(&there));
        }
    }
}

#[test]
fn the_larger_coordinate_may_come_first_or_second() {
    assert_eq!(distance(&(10, 2), &(4, 9)).squared_value(), Some(36 + 49));
    assert_eq!(distance(&(4, 9), &(10, 2)).squared_value(), Some(36 + 49));
    assert_eq!(distance(&(0, usize::MAX), &(0, 0)).squared_value(), Some((usize::MAX as u128) * (usize::MAX as u128)));
}

#[test]
fn the_longest_distance_needs_more_than_128_bits() {
    let corner = (usize::MAX, usize::MAX);
    let origin = (0, 0);
    let diagonal = distance(&origin, &corner);
    let side = distance(&origin, &(usize::MAX, 0));
    if usize::BITS == 64 {
        assert_eq!(diagonal.squared_value(), None);
    }
    assert!(side.is_shorter_than(&diagonal));
    assert!(!diagonal.is_shorter_than(&side));
    assert!(!diagonal.is_shorter_than(&diagonal));
    assert!(!diagonal.is_within(u64::MAX));
}

#[test]
fn shorter_means_strictly_shorter() {
    let a = distance(&(0, 0), &(3, 4));
    let b = distance(&(0, 0), &(5, 0));
    let c = distance(&(0, 0), &(5, 1));
    assert!(!a.is_shorter_than(&b));
    assert!(!b.is_shorter_than(&a));
    assert!(a.is_shorter_than(&c));
    assert!(!c.is_shorter_than(&a));
}

#[test]
fn within_a_radius_includes_the_rim() {
    let on_rim = distance(&(10, 10), &(10, 14));
    let inside = distance(&(10, 10), &(12, 13));
    let outside = distance(&(10, 10), &(11, 14));
    assert!(on_rim.is_within(4));
    assert!(inside.is_within(4));
    assert!(!outside.is_within(4));
    assert!(distance(&(1, 1), &(1, 1)).is_within(0));
    assert!(!distance(&(1, 1), &(1, 2)).is_within(0));
}
