use block_breaker::{Dimensions, Position};

#[test]
fn accessors_return_coordinates() {
    let p = Position::new(3, 7);
    assert_eq!(p.x(), 3);
    assert_eq!(p.y(), 7);
}

#[test]
fn add_and_sub_are_component_wise() {
    let a = Position::new(3, 7);
    let b = Position::new(1, 2);
    assert_eq!(a.add(&b), Position::new(4, 9));
    assert_eq!(a.sub(&b), Position::new(2, 5));
}

#[test]
fn add_assign_and_sub_assign_mutate_in_place() {
    let mut p = Position::new(10, 10);
    p.add_assign(&Position::new(1, 0));
    assert_eq!(p, Position::new(11, 10));
    p.sub_assign(&Position::new(0, 3));
    assert_eq!(p, Position::new(11, 7));
}

#[test]
fn arithmetic_truncates_into_the_grid() {
    // No grid cell lies below zero or beyond the largest coordinate.
    assert_eq!(Position::new(0, 0).sub(&Position::new(1, 0)), Position::new(0, 0));
    assert_eq!(Position::new(65535, 5).add(&Position::new(2, 0)), Position::new(65535, 5));
    assert_eq!(Position::new(0, 0).offset(-1, 5), Position::new(0, 5));
    assert_eq!(Position::new(4, 9).offset(1, -1), Position::new(5, 8));
}

#[test]
fn dimensions_accessors() {
    let d = Dimensions::new(80, 24);
    assert_eq!(d.width(), 80);
    assert_eq!(d.height(), 24);
}
