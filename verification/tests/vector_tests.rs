use block_breaker::Vector;

#[test]
fn new_normalizes_to_lowest_terms() {
    let v = Vector::new(6, -8);
    assert_eq!(v, Vector::new(3, -4));
    assert_eq!(v.x(), 3);
    assert_eq!(v.y(), -4);
}

#[test]
fn new_keeps_unit_magnitude_axes() {
    assert_eq!(Vector::new(5, 0), Vector { x: 1, y: 0 });
    assert_eq!(Vector::new(0, -7), Vector { x: 0, y: -1 });
    assert_eq!(Vector::new(-12, -12), Vector { x: -1, y: -1 });
}

#[test]
fn new_zero_stays_zero() {
    let v = Vector::new(0, 0);
    assert_eq!(v, Vector { x: 0, y: 0 });
}

#[test]
fn normalise_divides_by_common_factor() {
    let mut v = Vector { x: 6, y: -9 };
    v.normalise();
    assert_eq!(v, Vector { x: 2, y: -3 });
}

#[test]
fn dot_is_the_inner_product() {
    let a = Vector::new(1, 2);
    let b = Vector::new(3, 4);
    assert_eq!(a.dot(&b), 11);
    assert_eq!(b.dot(&a), 11);
}

#[test]
fn negate_flips_both_components() {
    let mut v = Vector::new(1, -2);
    v.negate();
    assert_eq!(v, Vector { x: -1, y: 2 });
}

#[test]
fn magnitude_squared_of_lowest_terms_pair() {
    let v = Vector::new(3, -4);
    assert_eq!(v.magnitude_squared(), 25);
    assert_eq!(Vector::new(0, 0).magnitude_squared(), 0);
}

#[test]
fn add_sub_mul_are_component_wise() {
    let a = Vector::new(1, 2);
    let b = Vector::new(3, 4);
    assert_eq!(a.add(&b), Vector { x: 4, y: 6 });
    assert_eq!(b.sub(&a), Vector { x: 2, y: 2 });
    assert_eq!(a.mul(3), Vector { x: 3, y: 6 });
    assert_eq!(a.mul(-1), Vector { x: -1, y: -2 });
}

#[test]
fn reflect_is_exact_specular_reflection() {
    // Reflecting straight-down off the up-left bar normal (1, -3):
    // v' = v - 2 (v.n / n.n) n, in lowest terms.
    let mut v = Vector::new(0, 1);
    v.reflect(&Vector::new(1, -3));
    assert_eq!(v, Vector { x: 3, y: -4 });
}

#[test]
fn reflect_twice_off_same_normal_restores_direction() {
    let n = Vector::new(1, -3);
    let mut v = Vector::new(3, -4);
    v.reflect(&n);
    assert_eq!(v, Vector { x: 0, y: 1 });
    v.reflect(&n);
    assert_eq!(v, Vector { x: 3, y: -4 });
}

#[test]
fn reflect_keeps_zero_velocity_zero() {
    let mut v = Vector::new(0, 0);
    v.reflect(&Vector::new(0, -1));
    assert_eq!(v, Vector { x: 0, y: 0 });
}

#[test]
fn unrepresentable_reflection_leaves_direction_unchanged() {
    // The reflection of this direction off (1, -3) reduces to
    // (458748, -65539), beyond the component limit, so the vector keeps its
    // old direction instead of rounding.
    let mut v = Vector { x: 65535, y: 65536 };
    v.reflect(&Vector::new(1, -3));
    assert_eq!(v, Vector { x: 65535, y: 65536 });
}
