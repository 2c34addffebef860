use raycaster::fixed::{fx_from_int, fx_sqrt, HALF, ONE};
use raycaster::utilities::vector2::{Rotation, Vector2};

#[test]
fn limit_vectors() {
    let mut velocity = Vector2::new(fx_from_int(4), fx_from_int(3));
    let acceleration = Vector2::new(fx_from_int(1), fx_from_int(1));
    velocity += acceleration;
    velocity.limit(fx_from_int(5));
    assert_eq!(fx_from_int(5), velocity.magnitude());
}

#[test]
fn try_dot_p() {
    let v1 = Vector2::new(fx_from_int(1), fx_from_int(3));
    let v2 = Vector2::new(fx_from_int(2), fx_from_int(4));
    let res = fx_from_int(14);
    assert_eq!(Vector2::dot(v1, v2), res);
}

#[test]
fn try_rotation() {
    let v1 = Vector2::new(fx_from_int(1), fx_from_int(1));
    // the cosine and the sine of 45 degrees
    let theta = Rotation { cos: 46341, sin: 46341 };
    let res = Vector2::new(0, fx_sqrt(fx_from_int(2)));
    assert_eq!(Vector2::rotate(v1, theta), res);
}

#[test]
fn vector_new_and_array() {
    let v = Vector2::new(3 * ONE, -HALF);
    assert_eq!(v.x, 3 * ONE);
    assert_eq!(v.y, -HALF);
    assert_eq!(v.to_array(), [3 * ONE, -HALF]);
}

#[test]
fn vector_operators() {
    let a = Vector2::new(3 * ONE, 4 * ONE);
    let b = Vector2::new(ONE, -2 * ONE);
    assert_eq!(a + b, Vector2::new(4 * ONE, 2 * ONE));
    assert_eq!(a - b, Vector2::new(2 * ONE, 6 * ONE));
    assert_eq!(a * b, Vector2::new(3 * ONE, -8 * ONE));
    assert_eq!(a * HALF, Vector2::new(3 * HALF, 2 * ONE));
    let mut c = a;
    c -= b;
    assert_eq!(c, Vector2::new(2 * ONE, 6 * ONE));
    c *= 2 * ONE;
    assert_eq!(c, Vector2::new(4 * ONE, 12 * ONE));
    c.multiply_scalar(HALF);
    assert_eq!(c, Vector2::new(2 * ONE, 6 * ONE));
    assert_eq!(a.magnitude(), 5 * ONE);
}

#[test]
fn normalize_keeps_the_zero_vector() {
    let mut z = Vector2::new(0, 0);
    z.normalize();
    assert_eq!(z, Vector2::new(0, 0));
    let mut v = Vector2::new(3 * ONE, 4 * ONE);
    v.normalize();
    assert_eq!(v, Vector2::new(39321, 52428));
}

#[test]
fn limit_leaves_a_short_vector() {
    let mut v = Vector2::new(ONE, ONE);
    v.limit(5 * ONE);
    assert_eq!(v, Vector2::new(ONE, ONE));
}
